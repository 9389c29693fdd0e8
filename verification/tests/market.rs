use kabu::market::{detect_market, is_tw_symbol, price_text, quote_channel, quote_url, to_tw_code};

#[test]
fn tw_symbols() {
    assert!(is_tw_symbol("2330.TW"));
    assert!(is_tw_symbol("6488.TWO"));
    assert!(is_tw_symbol("0050"));
    assert!(is_tw_symbol(""));
    assert!(!is_tw_symbol("AAPL"));
    assert!(!is_tw_symbol("2330.tw"));
    assert!(!is_tw_symbol("12a"));
}

#[test]
fn markets() {
    assert_eq!(detect_market("2330.TW"), Some("tse"));
    assert_eq!(detect_market("0050"), Some("tse"));
    assert_eq!(detect_market("6488.TWO"), Some("otc"));
    assert_eq!(detect_market("AAPL"), None);
    for s in ["2330.TW", "6488.TWO", "0050", "AAPL", "", "X.TWOO"] {
        assert_eq!(detect_market(s).is_some(), is_tw_symbol(s));
    }
}

#[test]
fn codes() {
    assert_eq!(to_tw_code(" 2330.TW "), "2330");
    assert_eq!(to_tw_code("6488.TWO"), "6488");
    assert_eq!(to_tw_code("1234.TW.TW"), "1234");
    assert_eq!(to_tw_code("A.TW.TWO"), "A.TW");
    assert_eq!(to_tw_code("0050"), "0050");
}

#[test]
fn channels_and_urls() {
    assert_eq!(quote_channel("2330.TW").as_deref(), Some("tse_2330.tw"));
    assert_eq!(quote_channel("6488.TWO").as_deref(), Some("otc_6488.tw"));
    assert_eq!(quote_channel("AAPL"), None);
    assert_eq!(
        quote_url("0050").as_deref(),
        Some("https://mis.twse.com.tw/stock/api/getStockInfo.jsp?ex_ch=tse_0050.tw")
    );
}

#[test]
fn price_fields() {
    assert_eq!(price_text(" 612.5000 ").as_deref(), Some("612.5000"));
    assert_eq!(price_text("-"), None);
    assert_eq!(price_text(" - "), None);
    assert_eq!(price_text("   "), None);
}
