//! The price updater's rules: how tracked assets are grouped by price source, how
//! symbol lists are joined for a request, and how the sources' replies are judged.
use vstd::prelude::*;
use vstd::string::*;

use crate::market::{is_tw_symbol, spec_is_tw_symbol};
use crate::text::{canonical, canonicalize, text_eq};

verus! {

/// Whether a tracked (symbol, asset type) row is a cryptocurrency.
pub open spec fn is_crypto_row(row: (Seq<char>, Seq<char>)) -> bool {
    row.1 == "crypto"@
}

/// The symbols of the rows, in order.
pub open spec fn symbols_of(rows: Seq<(Seq<char>, Seq<char>)>) -> Seq<Seq<char>> {
    rows.map_values(|row: (Seq<char>, Seq<char>)| row.0)
}

/// The symbols of the non-crypto rows: the stocks.
pub open spec fn spec_stock_symbols(rows: Seq<(Seq<char>, Seq<char>)>) -> Seq<Seq<char>> {
    symbols_of(rows.filter(|row: (Seq<char>, Seq<char>)| !is_crypto_row(row)))
}

/// The symbols of the crypto rows.
pub open spec fn spec_crypto_symbols(rows: Seq<(Seq<char>, Seq<char>)>) -> Seq<Seq<char>> {
    symbols_of(rows.filter(|row: (Seq<char>, Seq<char>)| is_crypto_row(row)))
}

/// The tracked assets grouped by the service that prices them.
#[derive(Debug, Clone)]
pub struct AssetGroups {
    /// Every asset that is not a cryptocurrency.
    pub stocks: Vec<String>,
    /// The stocks listed in Taiwan, priced by the TWSE service.
    pub tw_stocks: Vec<String>,
    /// The other stocks, priced by Finnhub.
    pub global_stocks: Vec<String>,
    /// The cryptocurrencies, priced by CoinMarketCap.
    pub crypto: Vec<String>,
}

proof fn lemma_filter_step<A>(s: Seq<A>, pred: spec_fn(A) -> bool, i: int)
    requires
        0 <= i < s.len(),
    ensures
        s.take(i + 1).filter(pred) == if pred(s[i]) {
            s.take(i).filter(pred).push(s[i])
        } else {
            s.take(i).filter(pred)
        },
{
    reveal(Seq::filter);
    assert(s.take(i + 1).drop_last() =~= s.take(i));
    assert(s.take(i + 1).last() == s[i]);
}

proof fn lemma_filter_empty<A>(s: Seq<A>, pred: spec_fn(A) -> bool)
    ensures
        s.take(0).filter(pred) == Seq::<A>::empty(),
{
    reveal(Seq::filter);
    assert(s.take(0).filter(pred) =~= Seq::<A>::empty());
}

/// Splits `symbols` into those listed in Taiwan and the others, keeping their order.
fn split_tw(symbols: &Vec<String>) -> (r: (Vec<String>, Vec<String>))
    ensures
        r.0.deep_view() == symbols.deep_view().filter(|s: Seq<char>| spec_is_tw_symbol(s)),
        r.1.deep_view() == symbols.deep_view().filter(|s: Seq<char>| !spec_is_tw_symbol(s)),
{
    let ghost all = symbols.deep_view();
    let ghost tw_pred = |s: Seq<char>| spec_is_tw_symbol(s);
    let ghost other_pred = |s: Seq<char>| !spec_is_tw_symbol(s);
    let mut tw: Vec<String> = Vec::new();
    let mut other: Vec<String> = Vec::new();
    proof {
        lemma_filter_empty(all, tw_pred);
        lemma_filter_empty(all, other_pred);
    }
    let n = symbols.len();
    for i in 0..n
        invariant
            n == all.len(),
            all == symbols.deep_view(),
            tw_pred == (|s: Seq<char>| spec_is_tw_symbol(s)),
            other_pred == (|s: Seq<char>| !spec_is_tw_symbol(s)),
            tw.deep_view() == all.take(i as int).filter(tw_pred),
            other.deep_view() == all.take(i as int).filter(other_pred),
    {
        proof {
            lemma_filter_step(all, tw_pred, i as int);
            lemma_filter_step(all, other_pred, i as int);
        }
        let s = &symbols[i];
        assert(all[i as int] == s@);
        if is_tw_symbol(s.as_str()) {
            let ghost before = tw.deep_view();
            tw.push(s.clone());
            assert(tw.deep_view() =~= before.push(s@));
        } else {
            let ghost before = other.deep_view();
            other.push(s.clone());
            assert(other.deep_view() =~= before.push(s@));
        }
    }
    assert(all.take(n as int) =~= all);
    (tw, other)
}

/// Groups tracked (symbol, asset type) rows: crypto rows apart, the rest as stocks, and
/// the stocks split into Taiwan-listed and other ones; every group keeps the rows' order.
pub fn group_assets(rows: &Vec<(String, String)>) -> (r: AssetGroups)
    ensures
        r.stocks.deep_view() == spec_stock_symbols(rows.deep_view()),
        r.crypto.deep_view() == spec_crypto_symbols(rows.deep_view()),
        r.tw_stocks.deep_view() == r.stocks.deep_view().filter(
            |s: Seq<char>| spec_is_tw_symbol(s),
        ),
        r.global_stocks.deep_view() == r.stocks.deep_view().filter(
            |s: Seq<char>| !spec_is_tw_symbol(s),
        ),
{
    let ghost all = rows.deep_view();
    let ghost stock_pred = |row: (Seq<char>, Seq<char>)| !is_crypto_row(row);
    let ghost crypto_pred = |row: (Seq<char>, Seq<char>)| is_crypto_row(row);
    let ghost sym = |row: (Seq<char>, Seq<char>)| row.0;
    let mut stocks: Vec<String> = Vec::new();
    let mut crypto: Vec<String> = Vec::new();
    proof {
        lemma_filter_empty(all, stock_pred);
        lemma_filter_empty(all, crypto_pred);
        assert(stocks.deep_view() =~= Seq::<(Seq<char>, Seq<char>)>::empty().map_values(sym));
    }
    let n = rows.len();
    for i in 0..n
        invariant
            n == all.len(),
            all == rows.deep_view(),
            stock_pred == (|row: (Seq<char>, Seq<char>)| !is_crypto_row(row)),
            crypto_pred == (|row: (Seq<char>, Seq<char>)| is_crypto_row(row)),
            sym == (|row: (Seq<char>, Seq<char>)| row.0),
            stocks.deep_view() == all.take(i as int).filter(stock_pred).map_values(sym),
            crypto.deep_view() == all.take(i as int).filter(crypto_pred).map_values(sym),
    {
        proof {
            lemma_filter_step(all, stock_pred, i as int);
            lemma_filter_step(all, crypto_pred, i as int);
        }
        let row = &rows[i];
        assert(all[i as int] == (row.0@, row.1@));
        if text_eq(row.1.as_str(), "crypto") {
            let ghost before = all.take(i as int).filter(crypto_pred);
            let ghost old_view = crypto.deep_view();
            crypto.push(row.0.clone());
            assert(crypto.deep_view() =~= old_view.push(row.0@));
            assert(before.push(all[i as int]).map_values(sym) =~= before.map_values(sym).push(
                row.0@,
            ));
        } else {
            let ghost before = all.take(i as int).filter(stock_pred);
            let ghost old_view = stocks.deep_view();
            stocks.push(row.0.clone());
            assert(stocks.deep_view() =~= old_view.push(row.0@));
            assert(before.push(all[i as int]).map_values(sym) =~= before.map_values(sym).push(
                row.0@,
            ));
        }
    }
    assert(all.take(n as int) =~= all);
    let (tw_stocks, global_stocks) = split_tw(&stocks);
    AssetGroups { stocks, tw_stocks, global_stocks, crypto }
}

/// The texts of `list` joined with `sep` between them.
pub open spec fn seq_join(list: Seq<Seq<char>>, sep: Seq<char>) -> Seq<char>
    decreases list.len(),
{
    if list.len() == 0 {
        Seq::empty()
    } else if list.len() == 1 {
        list[0]
    } else {
        seq_join(list.drop_last(), sep) + sep + list.last()
    }
}

/// The symbols joined with commas, as a request lists them.
pub fn join_symbols(symbols: &Vec<String>) -> (r: String)
    ensures
        r@ == seq_join(symbols.deep_view(), ","@),
{
    let ghost all = symbols.deep_view();
    let mut r = String::new();
    assert(all.take(0) =~= Seq::<Seq<char>>::empty());
    let n = symbols.len();
    for i in 0..n
        invariant
            n == all.len(),
            all == symbols.deep_view(),
            r@ == seq_join(all.take(i as int), ","@),
    {
        assert(all.take(i + 1).drop_last() =~= all.take(i as int));
        assert(all[i as int] == symbols[i as int]@);
        if i == 0 {
            r.append(symbols[i].as_str());
            assert(r@ =~= all.take(1)[0]);
        } else {
            r.append(",");
            r.append(symbols[i].as_str());
        }
    }
    assert(all.take(n as int) =~= all);
    r
}

/// A currency code trimmed and in capitals; none when nothing is left.
pub open spec fn spec_currency_code(code: Seq<char>) -> Option<Seq<char>> {
    if canonical(code).len() == 0 {
        None
    } else {
        Some(canonical(code))
    }
}

/// The currency code under which a configured currency is looked up, such as `TWD` for
/// ` twd `; none for a blank entry, which is skipped.
pub fn normalize_currency(code: &str) -> (r: Option<String>)
    ensures
        r.deep_view() == spec_currency_code(code@),
{
    let c = canonicalize(code);
    if c.as_str().is_empty() {
        None
    } else {
        Some(c)
    }
}

/// The error a CoinMarketCap reply reports: none when its error code is 0, else
/// `CMC API error: ` and the reported message (empty when absent).
pub fn cmc_status_error(error_code: i64, error_message: &Option<String>) -> (r: Option<String>)
    ensures
        r.deep_view() == if error_code == 0 {
            None
        } else {
            Some(
                "CMC API error: "@ + match error_message {
                    Some(e) => e@,
                    None => Seq::<char>::empty(),
                },
            )
        },
{
    if error_code == 0 {
        return None;
    }
    let mut m = String::from_str("CMC API error: ");
    match error_message {
        Some(e) => m.append(e.as_str()),
        None => {
            assert(m@ =~= m@ + Seq::<char>::empty());
        },
    }
    Some(m)
}

/// The error an ExchangeRate-API reply reports: none when its result is `success`,
/// else the result and the error type (`unknown` when absent).
pub fn exchange_rate_status_error(result: &str, error_type: &Option<String>) -> (r: Option<
    String,
>)
    ensures
        r.deep_view() == if result@ == "success"@ {
            None
        } else {
            Some(
                "exchangerate-api request failed (result="@ + result@ + ", error_type="@
                    + match error_type {
                    Some(e) => e@,
                    None => "unknown"@,
                } + ")"@,
            )
        },
{
    if text_eq(result, "success") {
        return None;
    }
    let mut m = String::from_str("exchangerate-api request failed (result=");
    m.append(result);
    m.append(", error_type=");
    match error_type {
        Some(e) => m.append(e.as_str()),
        None => m.append("unknown"),
    }
    m.append(")");
    Some(m)
}

/// The Finnhub quote endpoint for `symbol`.
pub fn finnhub_quote_url(symbol: &str, api_key: &str) -> (url: String)
    ensures
        url@ == "https://finnhub.io/api/v1/quote?symbol="@ + symbol@ + "&token="@ + api_key@,
{
    let mut url = String::from_str("https://finnhub.io/api/v1/quote?symbol=");
    url.append(symbol);
    url.append("&token=");
    url.append(api_key);
    url
}

/// The ExchangeRate-API endpoint for the latest rates from `base`.
pub fn exchange_rate_url(api_key: &str, base: &str) -> (url: String)
    ensures
        url@ == "https://v6.exchangerate-api.com/v6/"@ + api_key@ + "/latest/"@ + base@,
{
    let mut url = String::from_str("https://v6.exchangerate-api.com/v6/");
    url.append(api_key);
    url.append("/latest/");
    url.append(base);
    url
}

/// Every tracked row lands in exactly one of the stock and crypto groups: as many
/// symbols come out as rows went in.
pub proof fn lemma_groups_cover_rows(rows: Seq<(Seq<char>, Seq<char>)>)
    ensures
        spec_stock_symbols(rows).len() + spec_crypto_symbols(rows).len() == rows.len(),
    decreases rows.len(),
{
    reveal(Seq::filter);
    if rows.len() > 0 {
        lemma_groups_cover_rows(rows.drop_last());
    }
}

/// The Taiwan-listed and the other stocks together are all the stocks.
pub proof fn lemma_tw_split_covers_stocks(stocks: Seq<Seq<char>>)
    ensures
        stocks.filter(|s: Seq<char>| spec_is_tw_symbol(s)).len() + stocks.filter(
            |s: Seq<char>| !spec_is_tw_symbol(s),
        ).len() == stocks.len(),
    decreases stocks.len(),
{
    reveal(Seq::filter);
    if stocks.len() > 0 {
        lemma_tw_split_covers_stocks(stocks.drop_last());
    }
}

/// Every tracked stock whose symbol is made only of the characters `0` to `9` is
/// priced by the TWSE service, never by Finnhub.
pub proof fn lemma_digit_stocks_go_to_twse(stocks: Seq<Seq<char>>, i: int)
    requires
        0 <= i < stocks.len(),
        forall|k: int|
            0 <= k < stocks[i].len() ==> (#[trigger] stocks[i][k] == '0' || stocks[i][k] == '1'
                || stocks[i][k] == '2' || stocks[i][k] == '3' || stocks[i][k] == '4'
                || stocks[i][k] == '5' || stocks[i][k] == '6' || stocks[i][k] == '7'
                || stocks[i][k] == '8' || stocks[i][k] == '9'),
    ensures
        stocks.filter(|s: Seq<char>| spec_is_tw_symbol(s)).contains(stocks[i]),
        !stocks.filter(|s: Seq<char>| !spec_is_tw_symbol(s)).contains(stocks[i]),
{
    crate::market::lemma_digit_symbols_are_tse(stocks[i]);
    stocks.lemma_filter_contains(|s: Seq<char>| spec_is_tw_symbol(s), i);
    let others = stocks.filter(|s: Seq<char>| !spec_is_tw_symbol(s));
    if others.contains(stocks[i]) {
        let j = choose|j: int| 0 <= j < others.len() && others[j] == stocks[i];
        stocks.lemma_filter_pred(|s: Seq<char>| !spec_is_tw_symbol(s), j);
    }
}

} // verus!
