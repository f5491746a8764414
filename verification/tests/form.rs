use stock_tracker::calendar::ledger_date_is_valid;
use stock_tracker::form::{header_from_checks, position_of_stock, FieldLayout, FormState, InputError};
use stock_tracker::models::TxType;

fn form() -> FormState {
    FormState::new("2026-03-27".to_string())
}

#[test]
fn a_new_form() {
    let f = form();
    assert_eq!(f.status, "Ready");
    assert_eq!(f.txn_type_input, "buy");
    assert_eq!(f.txn_date_input, "2026-03-27");
    assert_eq!(f.selected_stock, None);
    assert!(f.stock_name_input.is_empty());
}

#[test]
fn stock_identity_is_trimmed_and_required() {
    let mut f = form();
    f.stock_name_input = "  Test Stock ".to_string();
    f.stock_code_input = " TST".to_string();
    assert_eq!(f.stock_identity(), Ok(("Test Stock".to_string(), "TST".to_string())));
    f.stock_code_input = "   ".to_string();
    assert_eq!(f.stock_identity(), Err(InputError::NameAndCodeRequired));
    f.stock_code_input = "TST".to_string();
    f.stock_name_input = String::new();
    assert_eq!(f.stock_identity(), Err(InputError::NameAndCodeRequired));
}

#[test]
fn adding_a_stock_clears_its_fields() {
    let mut f = form();
    f.stock_name_input = "A".to_string();
    f.stock_code_input = "B".to_string();
    f.stock_price_input = "1.5".to_string();
    f.txn_qty_input = "3".to_string();
    f.record_stock_added();
    assert!(f.stock_name_input.is_empty() && f.stock_code_input.is_empty() && f.stock_price_input.is_empty());
    assert_eq!(f.status, "Stock added");
    assert_eq!(f.txn_qty_input, "3");
}

#[test]
fn selecting_a_stock_starts_a_new_transaction() {
    let mut f = form();
    f.txn_type_input = "sell".to_string();
    f.txn_qty_input = "4".to_string();
    f.txn_price_input = "12".to_string();
    f.price_update_input = "13".to_string();
    f.stock_name_input = "kept".to_string();
    f.select_stock(7, "2026-04-01".to_string());
    assert_eq!(f.selected_stock, Some(7));
    assert_eq!(f.selected(), Ok(7));
    assert_eq!(f.txn_type_input, "buy");
    assert_eq!(f.txn_date_input, "2026-04-01");
    assert!(f.txn_qty_input.is_empty() && f.txn_price_input.is_empty() && f.price_update_input.is_empty());
    assert_eq!(f.stock_name_input, "kept");
}

#[test]
fn a_transaction_needs_a_selected_stock() {
    let f = form();
    assert_eq!(f.selected(), Err(InputError::SelectStockFirst));
    assert!(matches!(f.transaction_header(), Err(InputError::SelectStockFirst)));
}

#[test]
fn transaction_header_checks_in_order() {
    let mut f = form();
    f.select_stock(3, "  ".to_string());
    assert!(matches!(f.transaction_header(), Err(InputError::DateRequired)));
    f.txn_date_input = "2026/03/27".to_string();
    assert!(matches!(f.transaction_header(), Err(InputError::DateFormat)));
    f.txn_date_input = "2026-02-30".to_string();
    assert!(matches!(f.transaction_header(), Err(InputError::DateFormat)));
    f.txn_date_input = " 2026-03-27 ".to_string();
    f.txn_type_input = "dividend".to_string();
    assert!(matches!(f.transaction_header(), Err(InputError::InvalidType)));
    f.txn_type_input = " Split ".to_string();
    let h = f.transaction_header().unwrap();
    assert_eq!(h.stock_id, 3);
    assert_eq!(h.date, "2026-03-27");
    assert_eq!(h.tx_type, TxType::Subdivision);
    assert!(f.is_subdivision_input());
}

#[test]
fn header_from_checks_each_outcome() {
    assert!(matches!(header_from_checks(None, "2026-01-01", true, Some(TxType::Buy)), Err(InputError::SelectStockFirst)));
    assert!(matches!(header_from_checks(Some(1), "", true, Some(TxType::Buy)), Err(InputError::DateRequired)));
    assert!(matches!(header_from_checks(Some(1), "x", false, Some(TxType::Buy)), Err(InputError::DateFormat)));
    assert!(matches!(header_from_checks(Some(1), "x", true, None), Err(InputError::InvalidType)));
    let h = header_from_checks(Some(2), "2026-01-01", true, Some(TxType::Sell)).unwrap();
    assert_eq!((h.stock_id, h.date.as_str(), h.tx_type), (2, "2026-01-01", TxType::Sell));
}

#[test]
fn ledger_dates() {
    assert!(ledger_date_is_valid("2026-03-27"));
    assert!(ledger_date_is_valid("2024-02-29"));
    assert!(!ledger_date_is_valid("2026-02-29"));
    assert!(!ledger_date_is_valid("2026-13-01"));
    assert!(!ledger_date_is_valid("27.03.2026"));
    assert!(!ledger_date_is_valid(""));
}

#[test]
fn adding_a_transaction_clears_amounts() {
    let mut f = form();
    f.select_stock(1, "2026-01-01".to_string());
    f.txn_qty_input = "2".to_string();
    f.txn_price_input = "5".to_string();
    f.total_price_input = "10".to_string();
    f.estimated_profit_input = "1".to_string();
    f.record_transaction_added(TxType::Subdivision);
    assert!(f.txn_qty_input.is_empty() && f.total_price_input.is_empty() && f.estimated_profit_input.is_empty());
    assert_eq!(f.txn_price_input, "5");
    f.record_transaction_added(TxType::Buy);
    assert!(f.txn_price_input.is_empty());
    assert_eq!(f.txn_date_input, "2026-01-01");
}

#[test]
fn forgetting_the_selected_stock() {
    let mut f = form();
    f.select_stock(4, "d".to_string());
    assert!(!f.forget_stock(5));
    assert_eq!(f.selected_stock, Some(4));
    assert!(f.forget_stock(4));
    assert_eq!(f.selected_stock, None);
    assert_eq!(f.status, "Stock deleted");
}

#[test]
fn deleting_a_transaction_is_reported() {
    let mut f = form();
    f.txn_qty_input = "1".to_string();
    f.record_transaction_deleted();
    assert_eq!(f.status, "Transaction deleted");
    assert_eq!(f.txn_qty_input, "1");
}

#[test]
fn price_update_clears_its_field() {
    let mut f = form();
    f.price_update_input = "13".to_string();
    f.record_price_updated();
    assert!(f.price_update_input.is_empty());
}

#[test]
fn refusals_show_their_message() {
    let mut f = form();
    let all = [
        (InputError::NameAndCodeRequired, "Stock name and code are required"),
        (InputError::PriceNotPositive, "Price must be positive"),
        (InputError::SelectStockFirst, "Select a stock first"),
        (InputError::DateRequired, "Transaction date is required"),
        (InputError::DateFormat, "Date format must be YYYY-MM-DD"),
        (InputError::InvalidType, "Type must be buy, sell, or subdivision"),
        (InputError::QuantityNotPositive, "Quantity must be positive"),
        (InputError::NotEnoughShares, "Not enough shares to sell"),
    ];
    for (e, m) in all {
        assert_eq!(e.message(), m);
        f.report(e);
        assert_eq!(f.status, m);
    }
}

#[test]
fn finds_the_selected_stock() {
    let ids = vec![5, 7, 7, 9];
    assert_eq!(position_of_stock(&ids, Some(7)), Some(1));
    assert_eq!(position_of_stock(&ids, Some(9)), Some(3));
    assert_eq!(position_of_stock(&ids, Some(1)), None);
    assert_eq!(position_of_stock(&ids, None), None);
}

#[test]
fn fields_shown_for_each_kind() {
    let mut f = form();
    f.txn_type_input = "Buy".to_string();
    assert_eq!(f.layout(), FieldLayout { quantity_is_multiplier: false, shows_price: true, shows_total_price: true, shows_estimated_profit: false });
    f.txn_type_input = "sell ".to_string();
    assert_eq!(f.layout(), FieldLayout { quantity_is_multiplier: false, shows_price: true, shows_total_price: false, shows_estimated_profit: true });
    f.txn_type_input = "split".to_string();
    assert_eq!(f.layout(), FieldLayout { quantity_is_multiplier: true, shows_price: false, shows_total_price: false, shows_estimated_profit: false });
    f.txn_type_input = "?".to_string();
    assert_eq!(f.layout(), FieldLayout { quantity_is_multiplier: false, shows_price: true, shows_total_price: false, shows_estimated_profit: false });
}
