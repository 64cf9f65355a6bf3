use xtrade::cli::{Cli, ConfigAction};
use xtrade::config::{Config, ConfigError, EnvOverrides, SettingError};
use xtrade::session::{apply_config_action, ConfigOutcome};

#[test]
fn test_default_config() {
    let config = Config::default();
    assert!(config.validate().is_ok());
    assert_eq!(config.symbols, vec!["BTCUSDT"]);
}

#[test]
fn test_symbol_normalization() {
    assert_eq!(Config::normalize_symbol("BTC-USDT"), "BTCUSDT");
    assert_eq!(Config::normalize_symbol("btc-usdt"), "BTCUSDT");
    assert_eq!(Config::normalize_symbol("ETHUSDT"), "ETHUSDT");
}

#[test]
fn default_config_values() {
    let config = Config::default();
    assert_eq!(config.refresh_rate_ms, 100);
    assert_eq!(config.orderbook_depth, 20);
    assert!(config.enable_sparkline);
    assert_eq!(config.log_level, "info");
    assert_eq!(config.log.file_path, "logs/xtrade.log");
    assert_eq!(config.binance.ws_url, "wss://stream.binance.com:9443");
    assert_eq!(config.binance.rest_url, "https://api.binance.com");
    assert_eq!(config.ui.sparkline_points, 60);
    assert_eq!(config.ui.kline_refresh_secs, 60);
    assert!(config.markets.is_empty());
}

#[test]
fn validation_rejects_empty_symbols() {
    let mut config = Config::default();
    config.symbols.clear();
    let err = config.validate().unwrap_err();
    assert!(!err.message().is_empty());
}

#[test]
fn setting_refresh_rate_updates_config() {
    let mut config = Config::default();
    assert!(config.apply_setting("REFRESH_RATE_MS", "250").is_ok());
    assert_eq!(config.refresh_rate_ms, 250);
    assert!(config.apply_setting("refresh-rate", "300").is_ok());
    assert_eq!(config.refresh_rate_ms, 300);
}

#[test]
fn setting_zero_refresh_rate_is_refused() {
    let mut config = Config::default();
    let err = config.apply_setting("refresh_rate_ms", "0").unwrap_err();
    assert_eq!(err.message(), "Invalid refresh_rate_ms value: 0");
    assert_eq!(config.refresh_rate_ms, 100);
}

#[test]
fn setting_orderbook_depth_and_sparkline() {
    let mut config = Config::default();
    assert!(config.apply_setting("orderbook-depth", "50").is_ok());
    assert_eq!(config.orderbook_depth, 50);
    let err = config.apply_setting("orderbook_depth", "abc").unwrap_err();
    assert_eq!(err.message(), "Invalid orderbook_depth value: abc");
    let err = config.apply_setting("ui.sparkline_points", "9").unwrap_err();
    assert_eq!(err.message(), "Invalid ui.sparkline_points value: 9 (min 10)");
    assert!(config.apply_setting("ui.sparkline-points", "10").is_ok());
    assert_eq!(config.ui.sparkline_points, 10);
}

#[test]
fn setting_unknown_key_is_refused() {
    let mut config = Config::default();
    match config.apply_setting("Colour", "red") {
        Err(SettingError::UnsupportedKey(k)) => assert_eq!(k, "colour"),
        other => panic!("unexpected: {:?}", other),
    }
    let err = config.apply_setting("Colour", "red").unwrap_err();
    assert_eq!(err.message(), "Unsupported config key: colour");
}

#[test]
fn config_actions_lead_to_outcomes() {
    let mut config = Config::default();
    assert!(matches!(apply_config_action(&mut config, None), ConfigOutcome::Help));
    assert!(matches!(apply_config_action(&mut config, Some(ConfigAction::Show)), ConfigOutcome::Show));
    let set = ConfigAction::SetValue { key: "orderbook_depth".to_string(), value: "5".to_string() };
    assert!(matches!(apply_config_action(&mut config, Some(set)), ConfigOutcome::Updated));
    assert_eq!(config.orderbook_depth, 5);
    let bad = ConfigAction::SetValue { key: "orderbook_depth".to_string(), value: "-5".to_string() };
    assert!(matches!(apply_config_action(&mut config, Some(bad)), ConfigOutcome::Refused(_)));
    assert_eq!(config.orderbook_depth, 5);
    assert!(matches!(apply_config_action(&mut config, Some(ConfigAction::Reset)), ConfigOutcome::Reset));
    assert_eq!(config.orderbook_depth, 20);
}

#[test]
fn env_overrides_replace_values() {
    let mut config = Config::default();
    let mut env = EnvOverrides::default();
    env.refresh_rate_ms = Some("500".to_string());
    env.symbols = Some("ethusdt, ,btcusdt".to_string());
    config.apply_env_overrides(&env);
    assert_eq!(config.refresh_rate_ms, 500);
    assert_eq!(config.symbols, vec!["ethusdt", "btcusdt"]);
}

#[test]
fn cli_effective_log_level() {
    let cli = Cli {
        command: None,
        config_file: "config.toml".to_string(),
        log_level: "warn".to_string(),
        verbose: false,
        dry_run: false,
    };
    assert_eq!(cli.effective_log_level(), "warn");
    assert!(cli.is_interactive_mode());
    let verbose = Cli { verbose: true, ..cli };
    assert_eq!(verbose.effective_log_level(), "debug");
}

#[test]
fn invalid_configuration_falls_back_to_defaults() {
    let (ok, err) = Config::default().validated_or_default();
    assert!(err.is_none());
    assert_eq!(ok.refresh_rate_ms, 100);
    let mut bad = Config::default();
    bad.refresh_rate_ms = 0;
    bad.orderbook_depth = 7;
    let (c, err) = bad.validated_or_default();
    assert!(matches!(err, Some(ConfigError::ZeroRefreshRate)));
    assert_eq!(c.refresh_rate_ms, 100);
    assert_eq!(c.orderbook_depth, 20);
}
