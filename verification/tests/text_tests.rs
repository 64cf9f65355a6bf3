use xtrade::fixed::{format_fixed, format_u64, format_units, parse_bool, parse_fixed, parse_u64};
use xtrade::logbuf::{recent_logs, BufferWriter, LogBuffer};
use xtrade::notify::{applescript, escape_jxa_text, escape_osascript_text, SystemNotifier};
use xtrade::rest::{BinancePerpRestClient, BinanceRestClient, RestClientWrapper};
use xtrade::stream::{parse_stream_name, stream_label, BinanceEventType, MessageType, SubscribeRequest};
use xtrade::subscriptions::{is_subscribing_too_fast, is_valid_symbol_format, SubscriptionRegistry};
use xtrade::market::{MarketKey, MarketType};
use xtrade::text::{split_words, to_ascii_upper};

#[test]
fn fixed_formatting_round_trips() {
    for s in ["0", "100.8", "-0.5", "45000", "0.00000001", "123456.78901234"] {
        let v = parse_fixed(s).unwrap();
        assert_eq!(format_fixed(v), s);
        assert_eq!(parse_fixed(&format_fixed(v)), Some(v));
    }
    assert_eq!(parse_fixed("1.5"), Some(150_000_000));
    assert_eq!(parse_fixed("+2"), Some(200_000_000));
    assert_eq!(parse_fixed("1.000000001"), Some(100_000_000));
    assert_eq!(parse_fixed("100.123456789"), Some(10_012_345_678));
    assert_eq!(parse_fixed("-0.000000019"), Some(-1));
    assert_eq!(parse_fixed("1.0000000x1"), None);
    assert_eq!(parse_fixed("1.5e2"), Some(15_000_000_000));
    assert_eq!(parse_fixed("2.5E-1"), Some(25_000_000));
    assert_eq!(parse_fixed("-3e+0"), Some(-300_000_000));
    assert_eq!(parse_fixed("1e-9"), Some(0));
    assert_eq!(parse_fixed("1.23456789012e3"), Some(123_456_789_012));
    assert_eq!(parse_fixed("1e21"), None);
    assert_eq!(parse_fixed("1e"), None);
    assert_eq!(parse_fixed("e5"), None);
    assert_eq!(parse_fixed("1e5.0"), None);
    assert_eq!(parse_fixed("abc"), None);
    assert_eq!(parse_fixed(""), None);
}

#[test]
fn integers_parse_and_format() {
    assert_eq!(parse_u64("18446744073709551615"), Some(u64::MAX));
    assert_eq!(parse_u64("18446744073709551616"), None);
    assert_eq!(parse_u64("-1"), None);
    assert_eq!(format_u64(0), "0");
    assert_eq!(format_u64(1234), "1234");
    assert_eq!(parse_bool("true"), Some(true));
    assert_eq!(parse_bool("false"), Some(false));
    assert_eq!(parse_bool("0"), None);
}

#[test]
fn text_helpers() {
    assert_eq!(split_words("  a  bb c "), vec!["a", "bb", "c"]);
    assert_eq!(to_ascii_upper("btc-usdt"), "BTC-USDT");
}

#[test]
fn log_buffer_keeps_capacity() {
    let mut buf = LogBuffer::new(3);
    for i in 0..5 {
        buf.push(format!("l{}", i));
    }
    buf.push(String::new());
    assert_eq!(recent_logs(&buf, 10), vec!["l2", "l3", "l4"]);
    assert_eq!(recent_logs(&buf, 1), vec!["l4"]);
    assert!(recent_logs(&buf, 0).is_empty());
}

#[test]
fn buffer_writer_flushes_lines() {
    let mut buf = LogBuffer::new(10);
    let mut w = BufferWriter::new();
    w.write(b"hello world  \n");
    w.flush_into_log_buffer(&mut buf);
    assert_eq!(recent_logs(&buf, 10), vec!["hello world"]);
    // nothing collected, blank text, or bytes that are not UTF-8: the log stays
    w.flush_into_log_buffer(&mut buf);
    w.write(b"  \n\n");
    w.flush_into_log_buffer(&mut buf);
    w.write(&[0xff, 0xfe]);
    w.flush_into_log_buffer(&mut buf);
    assert!(w.buffer.is_empty());
    assert_eq!(recent_logs(&buf, 10), vec!["hello world"]);
}

#[test]
fn notification_escaping() {
    assert_eq!(escape_osascript_text("say \"hi\"\\"), "say \\\"hi\\\"\\\\");
    assert_eq!(escape_jxa_text("it's\n"), "it's\\n");
    let script = applescript("T", "B");
    assert!(script.contains("display notification"));
    let n = SystemNotifier::new("XTrade".to_string()).notify("Title".to_string(), "Body".to_string());
    assert_eq!(n.title, "Title");
    assert_eq!(n.body, "Body");
    assert_eq!(n.app_name, "XTrade");
}

#[test]
fn rest_urls() {
    let spot = BinanceRestClient::new("https://api.binance.com".to_string());
    assert_eq!(spot.depth_snapshot_url("BTCUSDT", None), "https://api.binance.com/api/v3/depth?symbol=BTCUSDT&limit=1000");
    assert_eq!(spot.daily_klines_url("BTCUSDT", Some(0)), "https://api.binance.com/api/v3/klines?symbol=BTCUSDT&interval=1d&limit=1");
    let perp = BinancePerpRestClient::new("https://fapi.binance.com".to_string());
    assert_eq!(perp.premium_index_url("BTCUSDT"), "https://fapi.binance.com/fapi/v1/premiumIndex?symbol=BTCUSDT");
    let w = RestClientWrapper::new_perp_usdt("https://fapi.binance.com".to_string());
    assert_eq!(w.depth_snapshot_url("ETHUSDT", Some(5)), "https://fapi.binance.com/fapi/v1/depth?symbol=ETHUSDT&limit=5");
}

#[test]
fn stream_names_and_labels() {
    assert_eq!(parse_stream_name("btcusdt@depth"), Some(("btcusdt".to_string(), "depth".to_string())));
    assert_eq!(parse_stream_name("nodelimiter"), None);
    assert_eq!(stream_label(Some(BinanceEventType::Trade), "BTCUSDT"), "btcusdt@trade");
    assert_eq!(MessageType::from_stream("btcusdt@depth@100ms"), MessageType::DepthUpdate);
    let req = SubscribeRequest::new("BTCUSDT", "depth");
    assert_eq!(req.method, "SUBSCRIBE");
    assert_eq!(req.params, vec!["btcusdt@depth"]);
}

#[test]
fn subscription_registry_rules() {
    assert!(is_valid_symbol_format("BTCUSDT"));
    assert!(!is_valid_symbol_format("btc"));
    assert!(!is_subscribing_too_fast(5));
    assert!(is_subscribing_too_fast(6));
    let mut reg = SubscriptionRegistry::new();
    let key = MarketKey::new(MarketType::Spot, "BTCUSDT".to_string());
    assert!(reg.register(key.clone()));
    assert!(!reg.register(key.clone()));
    assert!(reg.contains(&key));
    assert_eq!(reg.len(), 1);
    assert!(reg.unregister(&key));
    assert!(!reg.contains(&key));
    assert_eq!(reg.len(), 0);
}

#[test]
fn admitted_key_is_registered_once() {
    let cfg = xtrade::config::Config::default().binance;
    let mut reg = SubscriptionRegistry::new();
    let key = MarketKey::new(MarketType::Spot, "ETHUSDT".to_string());
    let plan = reg.plan_subscription(&key, &cfg).unwrap();
    assert!(plan.is_some());
    assert!(reg.register(key.clone()));
    assert!(reg.plan_subscription(&key, &cfg).unwrap().is_none());
    assert!(!reg.register(key));
    assert_eq!(reg.len(), 1);
}

#[test]
fn units_are_written_over_the_whole_range() {
    assert_eq!(format_units(10_080_000_000), "100.8");
    assert_eq!(format_units(-50_000_000), "-0.5");
    assert_eq!(format_units(0), "0");
    assert_eq!(format_units(1), "0.00000001");
    assert_eq!(format_units(i128::MAX), "1701411834604692317316873037158.84105727");
    assert_eq!(format_units(i128::MIN), "-1701411834604692317316873037158.84105728");
}
