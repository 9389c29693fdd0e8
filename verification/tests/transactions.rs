use kabu::transactions::{
    normalize_transaction_text, symbols_to_rebuild, transaction_action_label, SymbolSet,
    TransactionKind,
};

#[test]
fn normalizes_text_fields() {
    let n = normalize_transaction_text(" aapl ", " buy", Some(" 2024-01-02 ")).unwrap();
    assert_eq!(n.symbol, "AAPL");
    assert_eq!(n.kind, TransactionKind::Buy);
    assert_eq!(n.kind.as_str(), "BUY");
    assert_eq!(n.transaction_date.as_deref(), Some("2024-01-02"));
    let n = normalize_transaction_text("2330.tw", "Dividend", Some("   ")).unwrap();
    assert_eq!(n.symbol, "2330.TW");
    assert_eq!(n.kind, TransactionKind::Dividend);
    assert_eq!(n.transaction_date, None);
    assert_eq!(normalize_transaction_text("x", "sell", None).unwrap().transaction_date, None);
}

#[test]
fn refuses_missing_symbol_first() {
    assert_eq!(normalize_transaction_text("  ", "nope", None).unwrap_err(), "Symbol is required");
}

#[test]
fn refuses_unknown_type() {
    assert_eq!(normalize_transaction_text("AAPL", "TRANSFER", None).unwrap_err(), "Unsupported transaction type");
}

#[test]
fn kinds() {
    assert_eq!(TransactionKind::from_text("SELL"), Some(TransactionKind::Sell));
    assert_eq!(TransactionKind::from_text("sell"), None);
    assert!(TransactionKind::Buy.moves_shares());
    assert!(TransactionKind::Sell.moves_shares());
    assert!(!TransactionKind::Dividend.moves_shares());
}

#[test]
fn labels() {
    assert_eq!(transaction_action_label("BUY"), "買入");
    assert_eq!(transaction_action_label("SELL"), "賣出");
    assert_eq!(transaction_action_label("DIVIDEND"), "股利");
    assert_eq!(transaction_action_label("OTHER"), "交易");
}

#[test]
fn rebuild_targets() {
    assert_eq!(symbols_to_rebuild("AAPL", "AAPL"), vec!["AAPL".to_string()]);
    assert_eq!(symbols_to_rebuild("AAPL", "MSFT"), vec!["AAPL".to_string(), "MSFT".to_string()]);
}

#[test]
fn symbol_set_keeps_first_order_without_duplicates() {
    let mut s = SymbolSet::new();
    for x in ["AAPL", "MSFT", "AAPL", "TSLA", "MSFT"] {
        s.insert(x.to_string());
    }
    assert!(s.contains("TSLA"));
    assert!(!s.contains("GOOG"));
    assert_eq!(s.to_vec(), vec!["AAPL".to_string(), "MSFT".to_string(), "TSLA".to_string()]);
}
