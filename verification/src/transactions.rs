//! Transactions as users and statements enter them: which kinds exist, how their text
//! fields are normalized, and which holdings must be rebuilt after a change.
use vstd::prelude::*;
use vstd::string::*;

use crate::text::{canonical, canonicalize, text_eq, trim, trimmed};

verus! {

/// The kinds of transaction the portfolio knows.
#[derive(Debug, Clone, Copy, PartialEq, Eq, Structural)]
pub enum TransactionKind {
    Buy,
    Sell,
    Dividend,
}

/// The kind that a transaction type text names exactly: `BUY`, `SELL` or `DIVIDEND`.
pub open spec fn kind_of(s: Seq<char>) -> Option<TransactionKind> {
    if s == "BUY"@ {
        Some(TransactionKind::Buy)
    } else if s == "SELL"@ {
        Some(TransactionKind::Sell)
    } else if s == "DIVIDEND"@ {
        Some(TransactionKind::Dividend)
    } else {
        None
    }
}

impl TransactionKind {
    /// The stored text of the kind.
    pub open spec fn spec_text(self) -> Seq<char> {
        match self {
            TransactionKind::Buy => "BUY"@,
            TransactionKind::Sell => "SELL"@,
            TransactionKind::Dividend => "DIVIDEND"@,
        }
    }

    /// The stored text of the kind: `BUY`, `SELL` or `DIVIDEND`.
    pub fn as_str(&self) -> (r: &'static str)
        ensures
            r@ == self.spec_text(),
    {
        match self {
            TransactionKind::Buy => "BUY",
            TransactionKind::Sell => "SELL",
            TransactionKind::Dividend => "DIVIDEND",
        }
    }

    /// The kind that `s` names exactly, if any.
    pub fn from_text(s: &str) -> (r: Option<TransactionKind>)
        ensures
            r == kind_of(s@),
    {
        if text_eq(s, "BUY") {
            Some(TransactionKind::Buy)
        } else if text_eq(s, "SELL") {
            Some(TransactionKind::Sell)
        } else if text_eq(s, "DIVIDEND") {
            Some(TransactionKind::Dividend)
        } else {
            None
        }
    }

    /// Whether the kind moves shares, which are then counted in whole units.
    pub fn moves_shares(&self) -> (r: bool)
        ensures
            r == (self == TransactionKind::Buy || self == TransactionKind::Sell),
    {
        match self {
            TransactionKind::Dividend => false,
            _ => true,
        }
    }
}

/// The label under which an extracted transaction is logged.
pub open spec fn spec_action_label(transaction_type: Seq<char>) -> Seq<char> {
    match kind_of(transaction_type) {
        Some(TransactionKind::Buy) => "買入"@,
        Some(TransactionKind::Sell) => "賣出"@,
        Some(TransactionKind::Dividend) => "股利"@,
        None => "交易"@,
    }
}

/// The label of a transaction type: buy, sell, dividend, or a generic label.
pub fn transaction_action_label(transaction_type: &str) -> (r: &'static str)
    ensures
        r@ == spec_action_label(transaction_type@),
{
    match TransactionKind::from_text(transaction_type) {
        Some(TransactionKind::Buy) => "買入",
        Some(TransactionKind::Sell) => "賣出",
        Some(TransactionKind::Dividend) => "股利",
        None => "交易",
    }
}

/// The text fields of a transaction once normalized.
#[derive(Debug, Clone)]
pub struct NormalizedTransactionText {
    pub symbol: String,
    pub kind: TransactionKind,
    pub transaction_date: Option<String>,
}

/// A date field trimmed; an empty one counts as absent.
pub open spec fn spec_normalized_date(date: Option<Seq<char>>) -> Option<Seq<char>> {
    match date {
        Some(d) => if trimmed(d).len() == 0 {
            None
        } else {
            Some(trimmed(d))
        },
        None => None,
    }
}

/// What normalizing the text fields gives: the symbol and the type are trimmed and put
/// in capitals; an empty symbol is refused first, then a type other than `BUY`, `SELL`
/// and `DIVIDEND`; the date is trimmed and dropped when empty.
pub open spec fn normalized_text_is(
    symbol: Seq<char>,
    transaction_type: Seq<char>,
    date: Option<Seq<char>>,
    r: Result<NormalizedTransactionText, String>,
) -> bool {
    if canonical(symbol).len() == 0 {
        r matches Err(m) && m@ == "Symbol is required"@
    } else if kind_of(canonical(transaction_type)) is None {
        r matches Err(m) && m@ == "Unsupported transaction type"@
    } else {
        r matches Ok(n) && n.symbol@ == canonical(symbol) && Some(n.kind) == kind_of(
            canonical(transaction_type),
        ) && n.transaction_date.deep_view() == spec_normalized_date(date)
    }
}

/// Normalizes the text fields of a transaction entered by a user or read from a
/// statement; the numeric fields are checked by the caller after these.
pub fn normalize_transaction_text(
    symbol: &str,
    transaction_type: &str,
    transaction_date: Option<&str>,
) -> (r: Result<NormalizedTransactionText, String>)
    ensures
        normalized_text_is(symbol@, transaction_type@, transaction_date.deep_view(), r),
{
    let symbol = canonicalize(symbol);
    if symbol.as_str().is_empty() {
        return Err(String::from_str("Symbol is required"));
    }
    let kind_text = canonicalize(transaction_type);
    let kind = match TransactionKind::from_text(kind_text.as_str()) {
        Some(k) => k,
        None => return Err(String::from_str("Unsupported transaction type")),
    };
    let transaction_date = match transaction_date {
        Some(value) => {
            let value = trim(value);
            if value.is_empty() {
                None
            } else {
                Some(value.to_owned())
            }
        },
        None => None,
    };
    Ok(NormalizedTransactionText { symbol, kind, transaction_date })
}

/// The holdings to rebuild after a transaction moved from `old_symbol` to `new_symbol`:
/// the old one, and the new one when it differs.
pub fn symbols_to_rebuild(old_symbol: &str, new_symbol: &str) -> (r: Vec<String>)
    ensures
        r.deep_view() == if old_symbol@ == new_symbol@ {
            seq![old_symbol@]
        } else {
            seq![old_symbol@, new_symbol@]
        },
{
    let mut r: Vec<String> = Vec::new();
    r.push(old_symbol.to_owned());
    if !text_eq(old_symbol, new_symbol) {
        r.push(new_symbol.to_owned());
    }
    assert(r.deep_view() =~= if old_symbol@ == new_symbol@ {
        seq![old_symbol@]
    } else {
        seq![old_symbol@, new_symbol@]
    });
    r
}

/// The symbols whose holdings a batch of transactions touched, each once, in the order
/// they were first seen. No symbol occurs twice.
pub struct SymbolSet {
    items: Vec<String>,
}

impl View for SymbolSet {
    type V = Seq<Seq<char>>;

    closed spec fn view(&self) -> Seq<Seq<char>> {
        self.items.deep_view()
    }
}

impl SymbolSet {
    /// Whether no symbol occurs twice.
    pub open spec fn no_duplicates(s: Seq<Seq<char>>) -> bool {
        forall|i: int, j: int| 0 <= i < j < s.len() ==> s[i] != s[j]
    }

    #[verifier::type_invariant]
    spec fn distinct(&self) -> bool {
        Self::no_duplicates(self.items.deep_view())
    }

    /// An empty set.
    pub fn new() -> (r: SymbolSet)
        ensures
            r@ == Seq::<Seq<char>>::empty(),
    {
        let items: Vec<String> = Vec::new();
        assert(items.deep_view() =~= Seq::<Seq<char>>::empty());
        let r = SymbolSet { items };
        r
    }

    /// Whether `symbol` is in the set.
    pub fn contains(&self, symbol: &str) -> (r: bool)
        ensures
            r == self@.contains(symbol@),
    {
        let n = self.items.len();
        for i in 0..n
            invariant
                n == self@.len(),
                self@ == self.items.deep_view(),
                forall|j: int| 0 <= j < i ==> self@[j] != symbol@,
        {
            assert(self@[i as int] == self.items@[i as int]@);
            if text_eq(self.items[i].as_str(), symbol) {
                assert(self@[i as int] == symbol@);
                return true;
            }
        }
        false
    }

    /// Adds `symbol` at the end unless it is already in the set.
    pub fn insert(&mut self, symbol: String)
        ensures
            final(self)@ == if old(self)@.contains(symbol@) {
                old(self)@
            } else {
                old(self)@.push(symbol@)
            },
    {
        proof {
            use_type_invariant(&*self);
        }
        if !self.contains(symbol.as_str()) {
            let ghost before = self@;
            let mut items: Vec<String> = Vec::new();
            std::mem::swap(&mut items, &mut self.items);
            assert(items.deep_view() == before);
            items.push(symbol);
            assert(items.deep_view() =~= before.push(symbol@));
            self.items = items;
        }
    }

    /// The symbols, in the order they were first inserted.
    pub fn to_vec(&self) -> (r: Vec<String>)
        ensures
            r.deep_view() == self@,
            Self::no_duplicates(r.deep_view()),
    {
        proof {
            use_type_invariant(self);
        }
        self.items.clone()
    }
}

/// A normalized transaction always names a symbol, and its type is the canonical form
/// of the type it was entered with.
pub proof fn lemma_normalized_fields_are_canonical(
    symbol: Seq<char>,
    transaction_type: Seq<char>,
    date: Option<Seq<char>>,
    r: Result<NormalizedTransactionText, String>,
)
    requires
        normalized_text_is(symbol, transaction_type, date, r),
        r is Ok,
    ensures
        r->Ok_0.symbol@.len() > 0,
        r->Ok_0.kind.spec_text() == canonical(transaction_type),
        r->Ok_0.transaction_date matches Some(d) ==> d@.len() > 0,
{
    reveal_strlit("BUY");
    reveal_strlit("SELL");
    reveal_strlit("DIVIDEND");
}

} // verus!
