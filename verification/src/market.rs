//! Taiwan-listed symbols: which symbols are quoted by the TWSE service, on which market,
//! and under which code.
use vstd::prelude::*;
use vstd::string::*;

use crate::text::{
    all_ascii_digits, is_ascii_digit, ends_with, is_all_ascii_digits, seq_ends_with, strip_suffix_repeated,
    text_eq, trim, trim_end_matches, trimmed,
};

verus! {

/// Whether a symbol is Taiwan-listed: it ends with `.TW` or `.TWO`, or is made of
/// digits only.
pub open spec fn spec_is_tw_symbol(s: Seq<char>) -> bool {
    seq_ends_with(s, ".TW"@) || seq_ends_with(s, ".TWO"@) || all_ascii_digits(s)
}

/// The market of a symbol: `tse` for `.TW` or all-digit symbols, `otc` for `.TWO`.
pub open spec fn spec_market(s: Seq<char>) -> Option<Seq<char>> {
    if seq_ends_with(s, ".TW"@) || all_ascii_digits(s) {
        Some("tse"@)
    } else if seq_ends_with(s, ".TWO"@) {
        Some("otc"@)
    } else {
        None
    }
}

/// The exchange code of a symbol: trimmed, then `.TW` and after it `.TWO` taken off its
/// end as often as they occur.
pub open spec fn spec_tw_code(s: Seq<char>) -> Seq<char> {
    strip_suffix_repeated(strip_suffix_repeated(trimmed(s), ".TW"@), ".TWO"@)
}

/// Whether `symbol` is quoted by the Taiwan stock exchange service.
pub fn is_tw_symbol(symbol: &str) -> (r: bool)
    ensures
        r == spec_is_tw_symbol(symbol@),
{
    ends_with(symbol, ".TW") || ends_with(symbol, ".TWO") || is_all_ascii_digits(symbol)
}

/// The TWSE market that quotes `symbol`: `tse` or `otc`, or none for other symbols.
pub fn detect_market(symbol: &str) -> (r: Option<&'static str>)
    ensures
        r.deep_view() == spec_market(symbol@),
{
    if ends_with(symbol, ".TW") || is_all_ascii_digits(symbol) {
        return Some("tse");
    }
    if ends_with(symbol, ".TWO") {
        return Some("otc");
    }
    None
}

/// The exchange code of `symbol`, such as `2330` for `2330.TW`.
pub fn to_tw_code(symbol: &str) -> (r: String)
    ensures
        r@ == spec_tw_code(symbol@),
{
    let t = trim(symbol);
    let first = trim_end_matches(t, ".TW");
    trim_end_matches(first.as_str(), ".TWO")
}

/// The channel name under which the TWSE service quotes a symbol: the market, `_`, the
/// code and `.tw`; none for a symbol that no TWSE market quotes.
pub open spec fn spec_quote_channel(s: Seq<char>) -> Option<Seq<char>> {
    match spec_market(s) {
        Some(m) => Some(m + "_"@ + spec_tw_code(s) + ".tw"@),
        None => None,
    }
}

/// The channel name of `symbol` for the TWSE quote service, such as `tse_2330.tw`.
pub fn quote_channel(symbol: &str) -> (r: Option<String>)
    ensures
        r.deep_view() == spec_quote_channel(symbol@),
{
    match detect_market(symbol) {
        Some(market) => {
            let mut s = String::from_str(market);
            s.append("_");
            let code = to_tw_code(symbol);
            s.append(code.as_str());
            s.append(".tw");
            Some(s)
        },
        None => None,
    }
}

/// The TWSE quote endpoint for `symbol`; none for a symbol that no TWSE market quotes.
pub fn quote_url(symbol: &str) -> (r: Option<String>)
    ensures
        r.deep_view() == match spec_quote_channel(symbol@) {
            Some(c) => Some("https://mis.twse.com.tw/stock/api/getStockInfo.jsp?ex_ch="@ + c),
            None => None,
        },
{
    match quote_channel(symbol) {
        Some(channel) => {
            let mut url = String::from_str("https://mis.twse.com.tw/stock/api/getStockInfo.jsp?ex_ch=");
            url.append(channel.as_str());
            Some(url)
        },
        None => None,
    }
}

/// The text of a quoted price field, trimmed; none when it is empty or `-`.
pub open spec fn spec_price_text(raw: Seq<char>) -> Option<Seq<char>> {
    let t = trimmed(raw);
    if t.len() == 0 || t == "-"@ {
        None
    } else {
        Some(t)
    }
}

/// The number text of a price field of a TWSE quote, ready to be read as a decimal.
pub fn price_text(raw: &str) -> (r: Option<String>)
    ensures
        r.deep_view() == spec_price_text(raw@),
{
    let t = trim(raw);
    if t.is_empty() || text_eq(t, "-") {
        None
    } else {
        Some(t.to_owned())
    }
}

/// Every Taiwan-listed symbol has a market, and only those.
pub proof fn lemma_market_iff_tw_symbol(s: Seq<char>)
    ensures
        spec_market(s) is Some <==> spec_is_tw_symbol(s),
{
}

/// What remains after taking a non-empty suffix off as often as it occurs no longer ends
/// with that suffix.
pub proof fn lemma_stripped_has_no_suffix(s: Seq<char>, pat: Seq<char>)
    requires
        pat.len() > 0,
    ensures
        !seq_ends_with(strip_suffix_repeated(s, pat), pat),
    decreases s.len(),
{
    if seq_ends_with(s, pat) {
        lemma_stripped_has_no_suffix(s.subrange(0, s.len() - pat.len()), pat);
    }
}

/// An exchange code never ends with `.TWO`.
pub proof fn lemma_tw_code_has_no_otc_suffix(s: Seq<char>)
    ensures
        !seq_ends_with(spec_tw_code(s), ".TWO"@),
{
    reveal_strlit(".TWO");
    lemma_stripped_has_no_suffix(strip_suffix_repeated(trimmed(s), ".TW"@), ".TWO"@);
}

/// A symbol made only of the characters `0` to `9`, of any length, is Taiwan-listed and
/// quoted on the `tse` market, under the channel `tse_<code>.tw`.
pub proof fn lemma_digit_symbols_are_tse(s: Seq<char>)
    requires
        forall|i: int|
            0 <= i < s.len() ==> (#[trigger] s[i] == '0' || s[i] == '1' || s[i] == '2' || s[i]
                == '3' || s[i] == '4' || s[i] == '5' || s[i] == '6' || s[i] == '7' || s[i] == '8'
                || s[i] == '9'),
    ensures
        spec_is_tw_symbol(s),
        spec_market(s) == Some(seq!['t', 's', 'e']),
        spec_quote_channel(s) == Some(seq!['t', 's', 'e', '_'] + spec_tw_code(s) + seq!['.', 't', 'w']),
{
    reveal_strlit("tse");
    reveal_strlit("_");
    reveal_strlit(".tw");
    assert forall|i: int| 0 <= i < s.len() implies is_ascii_digit(#[trigger] s[i]) by {
        crate::text::lemma_ascii_digits_are_the_ten_digits(s[i]);
    }
    assert("tse"@ =~= seq!['t', 's', 'e']);
    assert("_"@ =~= seq!['_']);
    assert(".tw"@ =~= seq!['.', 't', 'w']);
    assert(seq!['t', 's', 'e'] + seq!['_'] =~= seq!['t', 's', 'e', '_']);
}

/// A symbol ending in `.TW` is quoted on `tse`; one ending in `.TWO` on `otc`.
pub proof fn lemma_suffix_markets(s: Seq<char>)
    ensures
        s.len() >= 3 && s[s.len() - 3] == '.' && s[s.len() - 2] == 'T' && s[s.len() - 1] == 'W'
            ==> spec_market(s) == Some(seq!['t', 's', 'e']),
        s.len() >= 4 && s[s.len() - 4] == '.' && s[s.len() - 3] == 'T' && s[s.len() - 2] == 'W'
            && s[s.len() - 1] == 'O' ==> spec_market(s) == Some(seq!['o', 't', 'c']),
{
    reveal_strlit("tse");
    reveal_strlit("otc");
    reveal_strlit(".TW");
    reveal_strlit(".TWO");
    assert("tse"@ =~= seq!['t', 's', 'e']);
    assert("otc"@ =~= seq!['o', 't', 'c']);
    if s.len() >= 3 && s[s.len() - 3] == '.' && s[s.len() - 2] == 'T' && s[s.len() - 1] == 'W' {
        assert(s.subrange(s.len() - 3, s.len() as int) =~= ".TW"@);
    }
    if s.len() >= 4 && s[s.len() - 4] == '.' && s[s.len() - 3] == 'T' && s[s.len() - 2] == 'W'
        && s[s.len() - 1] == 'O' {
        assert(s.subrange(s.len() - 4, s.len() as int) =~= ".TWO"@);
        assert(!seq_ends_with(s, ".TW"@)) by {
            assert(s.subrange(s.len() - 3, s.len() as int)[2] == 'O');
        }
        assert(!is_ascii_digit(s[s.len() - 1]));
    }
}

} // verus!
