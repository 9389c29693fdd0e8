use kabu::models::{default_asset_type, HistoryQuery};
use kabu::portfolio::latest_price_positions;
use kabu::text::{canonicalize, contains, ends_with, starts_with, trim_end_matches};

fn strings(items: &[&str]) -> Vec<String> {
    items.iter().map(|s| s.to_string()).collect()
}

#[test]
fn model_defaults() {
    assert_eq!(default_asset_type(), "stock");
    assert_eq!(HistoryQuery { limit: None }.limit_or_default(), 90);
    assert_eq!(HistoryQuery { limit: Some(5) }.limit_or_default(), 5);
}

#[test]
fn price_positions_take_the_last_match() {
    let r = latest_price_positions(
        &strings(&["AAPL", "BTC", "MSFT"]),
        &strings(&["MSFT", "AAPL", "MSFT"]),
    );
    assert_eq!(r, vec![Some(1), None, Some(2)]);
}

#[test]
fn text_helpers() {
    assert_eq!(canonicalize("  abc\t"), "ABC");
    assert!(contains("very high demand now", "high demand"));
    assert!(!contains("high", "high demand"));
    assert!(contains("x", ""));
    assert!(ends_with("2330.TW", ".TW"));
    assert!(starts_with("%PDF", "%P"));
    assert_eq!(trim_end_matches("a.TW.TW", ".TW"), "a");
    assert_eq!(trim_end_matches("abc", ""), "abc");
}
