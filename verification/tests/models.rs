use stock_tracker::models::TxType;

#[test]
fn tx_type_partials() {
    assert!(matches!(TxType::from_str("buy"), Some(TxType::Buy)));
    assert!(matches!(TxType::from_str("SELL"), Some(TxType::Sell)));
    assert!(matches!(TxType::from_str("subdivision"), Some(TxType::Subdivision)));
    assert_eq!(TxType::Buy.as_str(), "buy");
}

#[test]
fn as_str_names_every_kind() {
    assert_eq!(TxType::Buy.as_str(), "buy");
    assert_eq!(TxType::Sell.as_str(), "sell");
    assert_eq!(TxType::Subdivision.as_str(), "subdivision");
}

#[test]
fn stored_words_read_back() {
    for t in [TxType::Buy, TxType::Sell, TxType::Subdivision] {
        assert_eq!(TxType::from_str(t.as_str()), Some(t));
        assert_eq!(TxType::from_stored(t.as_str()), t);
    }
}

#[test]
fn split_is_a_subdivision() {
    assert_eq!(TxType::from_str("split"), Some(TxType::Subdivision));
    assert_eq!(TxType::from_str("Split"), Some(TxType::Subdivision));
}

#[test]
fn surrounding_whitespace_is_ignored() {
    assert_eq!(TxType::from_str("  buy\t\n"), Some(TxType::Buy));
    assert_eq!(TxType::from_str("\u{3000}sell\u{a0}"), Some(TxType::Sell));
    assert_eq!(TxType::from_str("b uy"), None);
}

#[test]
fn letter_case_is_ignored() {
    assert_eq!(TxType::from_str("BuY"), Some(TxType::Buy));
    assert_eq!(TxType::from_str("SubDivision"), Some(TxType::Subdivision));
    assert_eq!(TxType::from_str("SPLIT"), Some(TxType::Subdivision));
}

#[test]
fn unknown_words_name_no_kind() {
    assert_eq!(TxType::from_str(""), None);
    assert_eq!(TxType::from_str("   "), None);
    assert_eq!(TxType::from_str("buys"), None);
    assert_eq!(TxType::from_str("dividend"), None);
}

#[test]
fn unknown_stored_kind_is_a_purchase() {
    assert_eq!(TxType::from_stored("dividend"), TxType::Buy);
    assert_eq!(TxType::from_stored(""), TxType::Buy);
    assert_eq!(TxType::from_stored("SELL"), TxType::Sell);
}

#[test]
fn from_word_takes_exact_words_only() {
    assert_eq!(TxType::from_word("buy"), Some(TxType::Buy));
    assert_eq!(TxType::from_word("split"), Some(TxType::Subdivision));
    assert_eq!(TxType::from_word("BUY"), None);
    assert_eq!(TxType::from_word(" buy"), None);
}
