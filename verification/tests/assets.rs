use kabu::assets::{
    cmc_status_error, exchange_rate_status_error, exchange_rate_url, finnhub_quote_url,
    group_assets, join_symbols, normalize_currency,
};

fn rows(items: &[(&str, &str)]) -> Vec<(String, String)> {
    items.iter().map(|(s, t)| (s.to_string(), t.to_string())).collect()
}

fn strings(items: &[&str]) -> Vec<String> {
    items.iter().map(|s| s.to_string()).collect()
}

#[test]
fn grouping_by_price_source() {
    let g = group_assets(&rows(&[
        ("0050", "stock"),
        ("2330.TW", "stock"),
        ("AAPL", "stock"),
        ("BTC", "crypto"),
        ("ETH", "crypto"),
        ("VOO", "etf"),
    ]));
    assert_eq!(g.stocks, strings(&["0050", "2330.TW", "AAPL", "VOO"]));
    assert_eq!(g.tw_stocks, strings(&["0050", "2330.TW"]));
    assert_eq!(g.global_stocks, strings(&["AAPL", "VOO"]));
    assert_eq!(g.crypto, strings(&["BTC", "ETH"]));
}

#[test]
fn grouping_nothing() {
    let g = group_assets(&Vec::new());
    assert!(g.stocks.is_empty() && g.crypto.is_empty() && g.tw_stocks.is_empty() && g.global_stocks.is_empty());
}

#[test]
fn joining() {
    assert_eq!(join_symbols(&strings(&["BTC", "ETH", "SOL"])), "BTC,ETH,SOL");
    assert_eq!(join_symbols(&strings(&["BTC"])), "BTC");
    assert_eq!(join_symbols(&Vec::new()), "");
}

#[test]
fn currencies() {
    assert_eq!(normalize_currency(" twd ").as_deref(), Some("TWD"));
    assert_eq!(normalize_currency("  "), None);
}

#[test]
fn status_errors() {
    assert_eq!(cmc_status_error(0, &Some("ignored".to_string())), None);
    assert_eq!(cmc_status_error(1002, &Some("API key missing.".to_string())).as_deref(), Some("CMC API error: API key missing."));
    assert_eq!(cmc_status_error(500, &None).as_deref(), Some("CMC API error: "));
    assert_eq!(exchange_rate_status_error("success", &None), None);
    assert_eq!(
        exchange_rate_status_error("error", &Some("invalid-key".to_string())).as_deref(),
        Some("exchangerate-api request failed (result=error, error_type=invalid-key)")
    );
    assert_eq!(
        exchange_rate_status_error("error", &None).as_deref(),
        Some("exchangerate-api request failed (result=error, error_type=unknown)")
    );
}

#[test]
fn endpoints() {
    assert_eq!(finnhub_quote_url("AAPL", "K"), "https://finnhub.io/api/v1/quote?symbol=AAPL&token=K");
    assert_eq!(exchange_rate_url("K", "USD"), "https://v6.exchangerate-api.com/v6/K/latest/USD");
}
