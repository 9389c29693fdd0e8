//! Pairing each holding with the latest price recorded for its symbol.
use vstd::prelude::*;

use crate::text::text_eq;

verus! {

/// The position of the last entry of `symbols` equal to `symbol`, if any.
pub open spec fn last_position_of(symbols: Seq<Seq<char>>, symbol: Seq<char>) -> Option<int>
    decreases symbols.len(),
{
    if symbols.len() == 0 {
        None
    } else if symbols.last() == symbol {
        Some(symbols.len() - 1)
    } else {
        last_position_of(symbols.drop_last(), symbol)
    }
}

proof fn lemma_last_position_step(symbols: Seq<Seq<char>>, symbol: Seq<char>, j: int)
    requires
        0 <= j < symbols.len(),
    ensures
        last_position_of(symbols.take(j + 1), symbol) == if symbols[j] == symbol {
            Some(j)
        } else {
            last_position_of(symbols.take(j), symbol)
        },
{
    assert(symbols.take(j + 1).drop_last() =~= symbols.take(j));
    assert(symbols.take(j + 1).last() == symbols[j]);
}

/// For each holding's symbol, the position in `price_symbols` of the price that a
/// symbol-keyed table built from the prices in order holds for it: the last price with
/// that symbol, or none when no price has it.
pub fn latest_price_positions(holding_symbols: &Vec<String>, price_symbols: &Vec<String>) -> (r:
    Vec<Option<usize>>)
    ensures
        r@.len() == holding_symbols@.len(),
        forall|i: int|
            0 <= i < r@.len() ==> match #[trigger] r@[i] {
                Some(j) => last_position_of(price_symbols.deep_view(), holding_symbols@[i]@)
                    == Some(j as int),
                None => last_position_of(price_symbols.deep_view(), holding_symbols@[i]@)
                    is None,
            },
{
    let ghost prices = price_symbols.deep_view();
    let m = price_symbols.len();
    let n = holding_symbols.len();
    let mut r: Vec<Option<usize>> = Vec::new();
    for i in 0..n
        invariant
            n == holding_symbols@.len(),
            m == prices.len(),
            prices == price_symbols.deep_view(),
            r@.len() == i,
            forall|k: int|
                0 <= k < i ==> match #[trigger] r@[k] {
                    Some(j) => last_position_of(prices, holding_symbols@[k]@) == Some(j as int),
                    None => last_position_of(prices, holding_symbols@[k]@) is None,
                },
    {
        let symbol = holding_symbols[i].as_str();
        let mut found: Option<usize> = None;
        assert(prices.take(0) =~= Seq::<Seq<char>>::empty());
        for j in 0..m
            invariant
                m == prices.len(),
                prices == price_symbols.deep_view(),
                symbol@ == holding_symbols@[i as int]@,
                match found {
                    Some(p) => last_position_of(prices.take(j as int), symbol@) == Some(p as int),
                    None => last_position_of(prices.take(j as int), symbol@) is None,
                },
        {
            proof {
                lemma_last_position_step(prices, symbol@, j as int);
            }
            assert(prices[j as int] == price_symbols@[j as int]@);
            if text_eq(price_symbols[j].as_str(), symbol) {
                found = Some(j);
            }
        }
        assert(prices.take(m as int) =~= prices);
        r.push(found);
    }
    r
}

} // verus!
