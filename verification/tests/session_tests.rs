use std::collections::HashMap;
use xtrade::cli::{Cli, Commands};
use xtrade::config::{Config, MarketConfig};
use xtrade::logbuf::LogBuffer;
use xtrade::market::{MarketKey, MarketStream, MarketType, StreamSet};
use xtrade::planning::{build_subscription_plan, get_market_type};
use xtrade::session::{
    LogsInfo, MetricsState, SessionConfig, SessionState, SessionStats, StatusInfo,
};
use xtrade::stream::ConnectionStatus;
use xtrade::metrics;

fn make_cli(market: &str) -> Cli {
    Cli {
        command: Some(Commands::Ui { simple: false, market: market.to_string() }),
        config_file: "config.toml".to_string(),
        log_level: "info".to_string(),
        verbose: false,
        dry_run: false,
    }
}

#[test]
fn get_market_type_accepts_perp_aliases() {
    let cli = make_cli("perp");
    assert_eq!(get_market_type(&cli), MarketType::PerpUsdt);

    let cli = make_cli("perp_usdt");
    assert_eq!(get_market_type(&cli), MarketType::PerpUsdt);

    let cli = make_cli("spot");
    assert_eq!(get_market_type(&cli), MarketType::Spot);
}

#[test]
fn build_subscription_plan_includes_spot_and_perp_markets() {
    let cli = make_cli("spot");
    let mut config = Config::default();
    config.symbols = Vec::new();
    config.markets = vec![
        MarketConfig {
            exchange: "binance".to_string(),
            market_type: MarketType::Spot,
            symbols: vec!["BTCUSDT".to_string()],
            streams: vec!["trade".to_string()],
        },
        MarketConfig {
            exchange: "binance".to_string(),
            market_type: MarketType::PerpUsdt,
            symbols: vec!["BTCUSDT".to_string()],
            streams: vec!["markPrice".to_string(), "openInterest".to_string()],
        },
    ];

    let plans = build_subscription_plan(&config, get_market_type(&cli));
    let mut plan_map: HashMap<MarketKey, StreamSet> = HashMap::new();
    for plan in plans {
        plan_map.insert(plan.key, plan.streams);
    }

    let spot_key = MarketKey::new(MarketType::Spot, "BTCUSDT".to_string());
    let perp_key = MarketKey::new(MarketType::PerpUsdt, "BTCUSDT".to_string());

    assert!(plan_map.contains_key(&spot_key));
    assert!(plan_map.contains_key(&perp_key));

    let spot_streams = plan_map.get(&spot_key).expect("spot streams");
    assert!(spot_streams.contains(MarketStream::Trade));
    assert!(!spot_streams.contains(MarketStream::MarkPrice));

    let perp_streams = plan_map.get(&perp_key).expect("perp streams");
    assert!(perp_streams.contains(MarketStream::MarkPrice));
    assert!(perp_streams.contains(MarketStream::OpenInterest));
}

#[test]
fn plan_without_markets_uses_configured_symbols() {
    let config = Config::default();
    let plans = build_subscription_plan(&config, MarketType::Spot);
    assert_eq!(plans.len(), 1);
    assert_eq!(plans[0].key.symbol, "BTCUSDT");
    assert!(plans[0].streams.contains(MarketStream::Depth));
}

#[test]
fn session_config_defaults() {
    let c = SessionConfig::default();
    assert!(c.enable_tui && c.enable_metrics && c.auto_subscribe);
    assert_eq!(c.session_timeout_ms, 3_600_000);
    let plan = SessionConfig { enable_tui: false, ..c }.startup_plan();
    assert!(!plan.init_ui && !plan.send_help && plan.init_metrics && plan.auto_subscribe);
    assert_eq!(SessionState::Starting, SessionState::Starting);
}

#[test]
fn session_stats_count_and_time_out() {
    let mut stats = SessionStats::new_at(1_000);
    stats.record_command();
    stats.record_event();
    stats.record_event();
    stats.record_error();
    assert_eq!(stats.commands_processed, 1);
    assert_eq!(stats.events_processed, 2);
    assert_eq!(stats.errors_encountered, 1);
    assert!(!stats.timed_out_at(500, 1_500));
    assert!(stats.timed_out_at(500, 1_501));
}

#[test]
fn status_info_counts_subscriptions() {
    let stats = SessionStats::new_at(0);
    let info = StatusInfo::running("0.1.0", vec!["BTCUSDT".to_string(), "ETHUSDT".to_string()], stats);
    assert_eq!(info.state, "Running");
    assert_eq!(info.active_subscriptions, 2);
    assert_eq!(info.version, "0.1.0");
}

#[test]
fn logs_info_reports_placeholder_for_empty_log() {
    let buffer = LogBuffer::new(10);
    let config = Config::default();
    let cli = make_cli("spot");
    let info = LogsInfo::collect(&buffer, &config, &cli);
    assert_eq!(info.recent_logs, vec!["(no log entries captured yet)"]);
    assert_eq!(info.log_file_path, "logs/xtrade.log");
    assert_eq!(info.log_level, "info");
}

#[test]
fn logs_info_keeps_newest_lines() {
    let mut buffer = LogBuffer::new(200);
    for i in 0..150 {
        buffer.push(format!("line {}", i));
    }
    let config = Config::default();
    let cli = Cli { verbose: true, ..make_cli("spot") };
    let info = LogsInfo::collect(&buffer, &config, &cli);
    assert_eq!(info.recent_logs.len(), 100);
    assert_eq!(info.recent_logs[0], "line 50");
    assert_eq!(info.recent_logs[99], "line 149");
    assert_eq!(info.log_level, "debug");
}

#[test]
fn metrics_state_emits_on_cadence() {
    let mut state = MetricsState::new_at(1_000);
    assert!(!state.should_emit(1_050));
    assert!(state.should_emit(1_100));
    state.set_emit_interval(10);
    assert_eq!(state.emit_interval_ms, 50);
    state.mark_emitted(2_000);
    assert!(!state.should_emit(2_049));
    assert!(state.should_emit(2_050));
    state.observe_status(&ConnectionStatus::Error("boom".to_string()));
    assert_eq!(state.status, metrics::ConnectionStatus::Error("boom".to_string()));
    state.observe_status(&ConnectionStatus::Connected);
    assert_eq!(state.status, metrics::ConnectionStatus::Connected);
}
