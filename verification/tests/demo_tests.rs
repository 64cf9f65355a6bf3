use xtrade::demo::{DemoMessage, DemoNotice, MessageProcessor};
use xtrade::fixed::parse_fixed;
use xtrade::orderbook::{OrderBook, OrderBookUpdate};
use xtrade::stream::TradeMessage;

fn units(s: &str) -> i128 {
    parse_fixed(s).unwrap()
}

fn update(first: u64, last: u64, bid: &str) -> OrderBookUpdate {
    OrderBookUpdate {
        event_type: "depthUpdate".to_string(),
        event_time: 1,
        symbol: "BTCUSDT".to_string(),
        first_update_id: first,
        final_update_id: last,
        bids: vec![(bid.to_string(), "1.0".to_string())],
        asks: vec![],
    }
}

fn trade(price: &str, qty: &str) -> TradeMessage {
    TradeMessage {
        event_type: "trade".to_string(),
        event_time: 1,
        symbol: "BTCUSDT".to_string(),
        trade_id: 1,
        price: price.to_string(),
        quantity: qty.to_string(),
        trade_time: 1,
        is_buyer_maker: false,
    }
}

#[test]
fn demo_counts_updates_and_trades() {
    let mut p = MessageProcessor::new();
    let mut book = OrderBook::new("BTCUSDT".to_string());
    book.last_update_id = 10;
    let step = p.process_message(DemoMessage::Depth(Some(update(11, 12, "100.0"))), &mut book);
    assert!(matches!(step.notices[0], DemoNotice::UpdateApplied { count: 1 }));
    assert_eq!(book.last_update_id, 12);
    let step = p.process_message(DemoMessage::Trade(Some(trade("50000.5", "0.25"))), &mut book);
    assert_eq!(step.notices.len(), 1);
    p.process_message(DemoMessage::Trade(Some(trade("50001", "0.75"))), &mut book);
    let stats = p.get_stats();
    assert_eq!(stats.message_count, 3);
    assert_eq!(stats.update_count, 1);
    assert_eq!(stats.trade_count, 2);
    assert_eq!(stats.total_trade_volume, units("1"));
    assert_eq!(stats.last_trade_price, Some(units("50001")));
}

#[test]
fn demo_stale_update_is_counted_not_resynced() {
    let mut p = MessageProcessor::new();
    let mut book = OrderBook::new("BTCUSDT".to_string());
    book.last_update_id = 10;
    let step = p.process_message(DemoMessage::Depth(Some(update(5, 6, "1"))), &mut book);
    assert!(!step.resync);
    assert!(matches!(step.notices[0], DemoNotice::StaleMessage(_)));
    assert_eq!(p.get_stats().error_count, 1);
}

#[test]
fn demo_sequence_gap_asks_for_resync() {
    let mut p = MessageProcessor::new();
    let mut book = OrderBook::new("BTCUSDT".to_string());
    book.last_update_id = 10;
    let step = p.process_message(DemoMessage::Depth(Some(update(20, 21, "1"))), &mut book);
    assert!(step.resync);
    assert!(matches!(step.notices[0], DemoNotice::CriticalError(_)));
}

#[test]
fn demo_transport_failure_ends_the_run() {
    let mut p = MessageProcessor::new();
    let mut book = OrderBook::new("BTCUSDT".to_string());
    let step = p.process_message(DemoMessage::Failed("closed".to_string()), &mut book);
    assert_eq!(step.failure.as_deref(), Some("closed"));
    assert!(matches!(&step.notices[0], DemoNotice::ReceiveError(t) if t == "closed"));
    let step = p.process_message(DemoMessage::Ticker("btcusdt@ticker".to_string()), &mut book);
    assert!(step.failure.is_none());
    assert_eq!(step.notices.len(), 1);
    p.process_message(DemoMessage::Other("x".to_string()), &mut book);
    let step = p.process_message(DemoMessage::Other("y".to_string()), &mut book);
    // only the first three messages are reported
    assert!(step.notices.is_empty());
}
