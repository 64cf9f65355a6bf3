use xtrade::candles::{build_daily_candle, DailyCandle, KlineRow};
use xtrade::feed::{FeedMessage, FundingRateUpdate, MarkPriceUpdate, MarketEvent, OpenInterestStream, SymbolFeed};
use xtrade::fixed::parse_fixed;
use xtrade::market::{MarketStream, MarketType, StreamSet};
use xtrade::rest::MockRestClient;
use xtrade::stream::{heartbeat_step, HeartbeatAction, HeartbeatEvent, HeartbeatState};
use xtrade::stream::{classify_message, process_control_frame, BinanceEventType, ControlFrame, FrameError, KlineData, KlineStreamEvent};

fn units(s: &str) -> i128 {
    parse_fixed(s).unwrap()
}

fn sample_kline_event(is_final: bool) -> KlineStreamEvent {
    KlineStreamEvent {
        event_type: "kline".to_string(),
        event_time: 1,
        symbol: "TESTUSDT".to_string(),
        kline: KlineData {
            start_time: 1,
            close_time: 2,
            symbol: "TESTUSDT".to_string(),
            interval: "1d".to_string(),
            first_trade_id: 10,
            last_trade_id: 20,
            open: "100.0".to_string(),
            close: "110.0".to_string(),
            high: "115.0".to_string(),
            low: "95.0".to_string(),
            volume: "123.45".to_string(),
            number_of_trades: 42,
            is_final,
            quote_volume: "0".to_string(),
            taker_buy_base_volume: "0".to_string(),
            taker_buy_quote_volume: "0".to_string(),
            ignore: "0".to_string(),
        },
    }
}

fn perp_feed() -> SymbolFeed {
    let mut streams = StreamSet::new();
    streams.insert(MarketStream::MarkPrice);
    streams.insert(MarketStream::FundingRate);
    streams.insert(MarketStream::OpenInterest);
    SymbolFeed::new(MarketType::PerpUsdt, "BTCUSDT".to_string(), streams)
}

fn event_field(json: &str) -> Option<String> {
    let v: serde_json::Value = serde_json::from_str(json).unwrap();
    v.get("e").and_then(|e| e.as_str()).map(|s| s.to_string())
}

#[test]
fn build_daily_candle_converts_kline_values() {
    let event = sample_kline_event(false);
    let candle = build_daily_candle(&event).expect("should parse");

    assert_eq!(candle.open_time_ms, 1);
    assert_eq!(candle.close_time_ms, 2);
    assert_eq!(candle.open, units("100.0"));
    assert_eq!(candle.close, units("110.0"));
    assert_eq!(candle.high, units("115.0"));
    assert_eq!(candle.low, units("95.0"));
    assert_eq!(candle.volume, units("123.45"));
    assert!(!candle.is_closed);
}

#[test]
fn build_daily_candle_respects_final_flag() {
    let event = sample_kline_event(true);
    let candle = build_daily_candle(&event).expect("should parse");
    assert!(candle.is_closed);
}

#[test]
fn build_daily_candle_errors_on_bad_numbers() {
    let mut event = sample_kline_event(false);
    event.kline.open = "bad".to_string();
    let result = build_daily_candle(&event);
    assert!(result.is_err());
    assert_eq!(result.unwrap_err().message(), "failed to parse open value 'bad'");
}

#[test]
fn rest_kline_row_deserializes_from_payload() {
    let payload: serde_json::Value = serde_json::from_str(
        r#"[1700000000000, "100.12", "105.55", "98.01", "103.78", "1234.56", 1700086400000, "0", "0", 308, "0", "0"]"#,
    )
    .unwrap();
    let a = payload.as_array().expect("row should deserialize from payload");
    let row = KlineRow {
        open_time_ms: a[0].as_u64().unwrap(),
        open: a[1].as_str().unwrap().to_string(),
        high: a[2].as_str().unwrap().to_string(),
        low: a[3].as_str().unwrap().to_string(),
        close: a[4].as_str().unwrap().to_string(),
        volume: a[5].as_str().unwrap().to_string(),
        close_time_ms: a[6].as_u64().unwrap(),
    };
    let candle = DailyCandle::from_row(&row).unwrap();

    assert_eq!(candle.open_time_ms, 1_700_000_000_000u64);
    assert_eq!(candle.close_time_ms, 1_700_086_400_000u64);
    assert_eq!(candle.open, units("100.12"));
    assert_eq!(candle.high, units("105.55"));
    assert_eq!(candle.low, units("98.01"));
    assert_eq!(candle.close, units("103.78"));
    assert_eq!(candle.volume, units("1234.56"));
    assert!(candle.is_closed);
}

#[test]
fn mark_price_stream_emits_mark_price_event() {
    let mut feed = perp_feed();
    let msg = FeedMessage::MarkPrice(MarkPriceUpdate {
        event_type: "markPriceUpdate".to_string(),
        event_time: 1_700_000,
        symbol: "BTCUSDT".to_string(),
        mark_price: "40000.5".to_string(),
        index_price: "39950.2".to_string(),
        estimated_settle_price: "0".to_string(),
        funding_rate: "0.00025".to_string(),
        next_funding_time: 1_700_600,
    });
    match feed.handle_message(msg).event {
        Some(MarketEvent::MarkPriceUpdate { key, mark_price, index_price, funding_rate, next_funding_time, event_time }) => {
            assert_eq!(key.market_type, MarketType::PerpUsdt);
            assert_eq!(key.symbol, "BTCUSDT");
            assert_eq!(mark_price, units("40000.5"));
            assert_eq!(index_price, units("39950.2"));
            assert_eq!(funding_rate, units("0.00025"));
            assert_eq!(next_funding_time, 1_700_600);
            assert_eq!(event_time, 1_700_000);
        }
        other => panic!("unexpected market event: {:?}", other),
    }
}

#[test]
fn funding_rate_stream_emits_funding_rate_event() {
    let mut feed = perp_feed();
    let msg = FeedMessage::FundingRate(FundingRateUpdate {
        event_type: "fundingRate".to_string(),
        event_time: 1_700_010,
        symbol: "BTCUSDT".to_string(),
        funding_rate: "0.00015".to_string(),
        funding_time: 1_700_800,
    });
    match feed.handle_message(msg).event {
        Some(MarketEvent::FundingRateUpdate { key, funding_rate, funding_time, event_time }) => {
            assert_eq!(key.market_type, MarketType::PerpUsdt);
            assert_eq!(key.symbol, "BTCUSDT");
            assert_eq!(funding_rate, units("0.00015"));
            assert_eq!(funding_time, 1_700_800);
            assert_eq!(event_time, 1_700_010);
        }
        other => panic!("unexpected market event: {:?}", other),
    }
}

#[test]
fn open_interest_stream_emits_open_interest_event() {
    let mut feed = perp_feed();
    let msg = FeedMessage::OpenInterest(OpenInterestStream {
        open_interest: "123456.7".to_string(),
        symbol: "BTCUSDT".to_string(),
        time: 1_700_020,
    });
    match feed.handle_message(msg).event {
        Some(MarketEvent::OpenInterestUpdate { key, open_interest, event_time }) => {
            assert_eq!(key.market_type, MarketType::PerpUsdt);
            assert_eq!(key.symbol, "BTCUSDT");
            assert_eq!(open_interest, units("123456.7"));
            assert_eq!(event_time, 1_700_020);
        }
        other => panic!("unexpected market event: {:?}", other),
    }
}

#[test]
fn unreadable_mark_price_emits_nothing() {
    let mut feed = perp_feed();
    let msg = FeedMessage::MarkPrice(MarkPriceUpdate {
        event_type: "markPriceUpdate".to_string(),
        event_time: 1,
        symbol: "BTCUSDT".to_string(),
        mark_price: "x".to_string(),
        index_price: "1".to_string(),
        estimated_settle_price: "0".to_string(),
        funding_rate: "0".to_string(),
        next_funding_time: 2,
    });
    let out = feed.handle_message(msg);
    assert!(out.event.is_none());
    assert!(!out.resync);
}

#[test]
fn test_classify_message_depth_update() {
    let e = event_field(r#"{"e": "depthUpdate", "s": "BTCUSDT", "b": [], "a": []}"#);
    assert_eq!(classify_message(e.as_deref()), Some(BinanceEventType::DepthUpdate));
}

#[test]
fn test_classify_message_trade() {
    let e = event_field(r#"{"e": "trade", "s": "BTCUSDT", "p": "50000.0"}"#);
    assert_eq!(classify_message(e.as_deref()), Some(BinanceEventType::Trade));
}

#[test]
fn test_classify_message_ticker_24hr() {
    let e = event_field(r#"{"e": "24hrTicker", "s": "BTCUSDT", "c": "50000.0"}"#);
    assert_eq!(classify_message(e.as_deref()), Some(BinanceEventType::Ticker24hr));
}

#[test]
fn test_classify_message_unknown() {
    let e = event_field(r#"{"e": "unknownEvent", "s": "BTCUSDT"}"#);
    assert_eq!(classify_message(e.as_deref()), None);
}

#[test]
fn test_classify_message_no_event_type() {
    let e = event_field(r#"{"method": "SUBSCRIBE", "params": ["btcusdt@depth"]}"#);
    assert_eq!(classify_message(e.as_deref()), None);
}

#[test]
fn test_mock_rest_client() {
    let client = MockRestClient::new("http://localhost:8080/mock".to_string());
    let path = client.orderbook_snapshot_path("BTCUSDT");
    assert_eq!(path, "/api/v3/depth?symbol=BTCUSDT&limit=1000");
    let response = client.response();
    assert!(response.contains("lastUpdateId"));
    assert!(response.contains("bids"));
    assert!(response.contains("asks"));
}

#[test]
fn test_process_message_pong() {
    let result = process_control_frame(ControlFrame::Pong).unwrap();
    assert_eq!(result, "pong");
}

#[test]
fn test_process_message_close() {
    let result = process_control_frame(ControlFrame::Close);
    assert!(result.is_err());
    assert!(matches!(result.unwrap_err(), FrameError::ConnectionError(_)));
}

#[test]
fn ping_is_filed_and_binary_is_refused() {
    assert_eq!(process_control_frame(ControlFrame::Ping).unwrap(), "ping");
    match process_control_frame(ControlFrame::Binary) {
        Err(FrameError::ParseError(m)) => assert_eq!(m, "Unsupported message type"),
        _ => panic!("binary frames are not handled"),
    }
}

#[test]
fn heartbeat_pings_and_times_out() {
    let s = HeartbeatState::new(1_000);
    // 5 s later: nothing to do
    let (s, a) = heartbeat_step(s, HeartbeatEvent::Tick, 6_000);
    assert_eq!(a, HeartbeatAction::Idle);
    // over 10 s since the last ping: ping, stamped now
    let (s, a) = heartbeat_step(s, HeartbeatEvent::Tick, 11_001);
    assert_eq!(a, HeartbeatAction::SendPing);
    assert_eq!(s.last_ping, 11_001);
    // a valid message refreshes the heartbeat
    let (s, a) = heartbeat_step(s, HeartbeatEvent::ValidMessage, 20_000);
    assert_eq!(a, HeartbeatAction::Idle);
    assert_eq!(s.last_heartbeat, 20_000);
    // exactly 30 s of silence is not yet a timeout, more is
    let (_, a) = heartbeat_step(s, HeartbeatEvent::Tick, 50_000);
    assert_eq!(a, HeartbeatAction::SendPing);
    let (s2, a) = heartbeat_step(s, HeartbeatEvent::Tick, 50_001);
    assert_eq!(a, HeartbeatAction::ReportTimeout);
    assert_eq!(s2, s);
}
