use xtrade::fixed::parse_fixed;
use xtrade::orderbook::{DepthSnapshot, OrderBook, OrderBookError, OrderBookUpdate};

fn units(s: &str) -> i128 {
    parse_fixed(s).expect("decimal literal")
}

fn make_update(
    symbol: &str,
    event_time: u64,
    first_id: u64,
    final_id: u64,
    bids: Vec<(&str, &str)>,
    asks: Vec<(&str, &str)>,
) -> OrderBookUpdate {
    OrderBookUpdate {
        event_type: "depthUpdate".to_string(),
        event_time,
        symbol: symbol.to_string(),
        first_update_id: first_id,
        final_update_id: final_id,
        bids: bids.into_iter().map(|(p, q)| (p.to_string(), q.to_string())).collect(),
        asks: asks.into_iter().map(|(p, q)| (p.to_string(), q.to_string())).collect(),
    }
}

#[test]
fn best_prices_update_correctly_on_incremental_changes() {
    let symbol = "TESTUSDT".to_string();
    let mut ob = OrderBook::new(symbol.clone());

    ob.bids.insert(units("99.5"), units("1.0"));
    ob.bids.insert(units("100.0"), units("1.2"));
    ob.asks.insert(units("100.5"), units("0.8"));
    ob.asks.insert(units("101.0"), units("2.3"));
    ob.last_update_id = 10;

    let update = make_update(
        &symbol,
        1_000,
        11,
        12,
        vec![("100.8", "0.5")],
        vec![("100.5", "0.0"), ("100.9", "1.0")],
    );

    ob.apply_depth_update(update).expect("depth update should succeed");

    let best_bid = ob.best_bid().unwrap();
    let best_ask = ob.best_ask().unwrap();

    assert_eq!(best_bid, units("100.8"), "best bid should be updated to 100.8");
    assert_eq!(best_ask, units("100.9"), "best ask should be updated to 100.9");
    assert!(best_bid < best_ask, "spread must remain positive");
}

#[test]
fn zero_quantity_deletes_and_best_price_rolls_back() {
    let symbol = "TESTUSDT".to_string();
    let mut ob = OrderBook::new(symbol.clone());

    ob.bids.insert(units("99.0"), units("1.0"));
    ob.bids.insert(units("100.0"), units("2.0"));
    ob.asks.insert(units("101.0"), units("1.0"));
    ob.last_update_id = 20;

    let update = make_update(&symbol, 2_000, 21, 21, vec![("100.0", "0.0")], vec![]);
    ob.apply_depth_update(update).expect("delete update should succeed");

    let best_bid = ob.best_bid().unwrap();
    assert_eq!(best_bid, units("99.0"), "best bid should roll back to next level");
}

#[test]
fn stale_message_is_rejected_and_state_unchanged() {
    let symbol = "TESTUSDT".to_string();
    let mut ob = OrderBook::new(symbol.clone());
    ob.bids.insert(units("100.0"), units("1.0"));
    ob.asks.insert(units("101.0"), units("1.0"));
    ob.last_update_id = 50;
    let prev_best_bid = ob.best_bid();
    let prev_best_ask = ob.best_ask();

    let update = make_update(&symbol, 3_000, 50, 50, vec![("100.5", "1.0")], vec![]);
    let err = ob.apply_depth_update(update).unwrap_err();

    assert!(matches!(err, OrderBookError::StaleMessage { .. }));
    assert_eq!(ob.last_update_id, 50, "last_update_id should not change on stale update");
    assert_eq!(ob.best_bid(), prev_best_bid);
    assert_eq!(ob.best_ask(), prev_best_ask);
}

#[test]
fn sequence_gap_triggers_validation_error() {
    let symbol = "TESTUSDT".to_string();
    let mut ob = OrderBook::new(symbol.clone());
    ob.bids.insert(units("100.0"), units("1.0"));
    ob.asks.insert(units("101.0"), units("1.0"));
    ob.last_update_id = 10;

    let update = make_update(&symbol, 4_000, 20, 21, vec![("100.1", "1.0")], vec![]);
    let err = ob.apply_depth_update(update).unwrap_err();

    assert!(matches!(err, OrderBookError::SequenceValidationFailed { .. }));
    assert_eq!(ob.last_update_id, 10, "last_update_id should remain unchanged on gap");
}

#[test]
fn last_update_time_tracks_event_time() {
    let symbol = "TESTUSDT".to_string();
    let mut ob = OrderBook::new(symbol.clone());
    ob.last_update_id = 30;

    let update = make_update(&symbol, 5_500, 31, 31, vec![("100.0", "1.0")], vec![]);
    ob.apply_depth_update(update).expect("update should succeed");

    assert_eq!(ob.last_update_time, 5_500, "last_update_time should reflect update event time");
}

#[test]
fn later_mention_of_a_price_wins() {
    let mut ob = OrderBook::new("TESTUSDT".to_string());
    ob.last_update_id = 1;
    let update = make_update("TESTUSDT", 10, 2, 2, vec![("50", "1"), ("50", "3")], vec![]);
    ob.apply_depth_update(update).unwrap();
    assert_eq!(ob.bids.get(units("50")), Some(units("3")));
    assert_eq!(ob.last_update_id, 2);
}

#[test]
fn unreadable_level_is_rejected() {
    let mut ob = OrderBook::new("TESTUSDT".to_string());
    ob.last_update_id = 1;
    let update = make_update("TESTUSDT", 10, 2, 2, vec![("abc", "1")], vec![]);
    assert!(ob.apply_depth_update(update).is_err());
    assert_eq!(ob.last_update_id, 1);
    assert!(ob.bids.is_empty());
}

#[test]
fn snapshot_replaces_book() {
    let mut ob = OrderBook::new("TESTUSDT".to_string());
    ob.bids.insert(units("1"), units("1"));
    let snapshot = DepthSnapshot {
        last_update_id: 77,
        bids: vec![("100.0".to_string(), "2.0".to_string()), ("99.0".to_string(), "0".to_string())],
        asks: vec![("101.0".to_string(), "3.0".to_string())],
    };
    ob.update_from_snapshot_at(snapshot, 123).unwrap();
    assert_eq!(ob.last_update_id, 77);
    assert_eq!(ob.best_bid(), Some(units("100")));
    assert_eq!(ob.best_ask(), Some(units("101")));
    assert_eq!(ob.bids.get(units("1")), None);
    assert_eq!(ob.bids.get(units("99")), None);
    assert_eq!(ob.spread(), Some(units("1")));
    assert!(ob.validate_consistency().is_ok());
    assert_eq!(ob.total_levels(), 2);
}

#[test]
fn crossed_book_fails_consistency() {
    let mut ob = OrderBook::new("TESTUSDT".to_string());
    ob.bids.insert(units("101"), units("1"));
    ob.asks.insert(units("100"), units("1"));
    let err = ob.validate_consistency().unwrap_err();
    assert!(err.requires_resync());
    assert!(!err.message().is_empty());
}

#[test]
fn levels_with_more_than_eight_decimals_are_applied() {
    let symbol = "TESTUSDT".to_string();
    let mut ob = OrderBook::new(symbol.clone());
    ob.last_update_id = 10;
    let update = make_update(&symbol, 1_000, 11, 12, vec![("100.123456789", "1.5")], vec![("100.2", "0.0000000015")]);
    ob.apply_depth_update(update).expect("nine decimals are accepted");
    assert_eq!(ob.best_bid(), Some(units("100.12345678")));
    assert_eq!(ob.last_update_id, 12);
}

#[test]
fn levels_in_scientific_notation_are_applied() {
    let symbol = "TESTUSDT".to_string();
    let mut ob = OrderBook::new(symbol.clone());
    ob.last_update_id = 10;
    let update = make_update(&symbol, 1_000, 11, 12, vec![("1.005e2", "2E-1")], vec![]);
    ob.apply_depth_update(update).expect("scientific notation is accepted");
    assert_eq!(ob.best_bid(), Some(units("100.5")));
}
