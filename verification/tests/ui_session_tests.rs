use xtrade::config::Config;
use xtrade::session::{LogsInfo, SessionStats, StatusInfo};
use xtrade::ui::{AppState, RenderState};
use xtrade::ui_session::{join_strings, UiEvent, UiSession};

fn session(symbols: Vec<&str>) -> UiSession {
    UiSession {
        app: AppState::new(symbols.into_iter().map(|s| s.to_string()).collect()),
        render: RenderState::default(),
        config: Config::default(),
        refresh_interval_ms: 100,
        session_stats: SessionStats::new_at(0),
    }
}

#[test]
fn subscription_events_update_tabs_and_messages() {
    let mut ui = session(vec!["BTCUSDT"]);
    ui.handle_event(UiEvent::SubscriptionAdded { symbol: "ETHUSDT".to_string() });
    assert_eq!(ui.app.symbols, vec!["BTCUSDT", "ETHUSDT"]);
    assert_eq!(ui.render.pending_messages, vec!["Subscribed to ETHUSDT"]);
    assert_eq!(ui.app.log_messages.back().unwrap(), "Subscribed to ETHUSDT");

    // already shown: nothing happens
    ui.handle_event(UiEvent::SubscriptionAdded { symbol: "ETHUSDT".to_string() });
    assert_eq!(ui.render.pending_messages.len(), 1);

    ui.app.selected_tab = 1;
    ui.handle_event(UiEvent::SubscriptionRemoved { symbol: "ETHUSDT".to_string() });
    assert_eq!(ui.app.symbols, vec!["BTCUSDT"]);
    assert_eq!(ui.app.selected_tab, 0);
    assert_eq!(ui.render.pending_messages.last().unwrap(), "Unsubscribed from ETHUSDT");
}

#[test]
fn subscription_list_event_reports_none_when_empty() {
    let mut ui = session(vec!["BTCUSDT"]);
    ui.handle_event(UiEvent::SubscriptionList { symbols: vec![] });
    assert!(ui.app.symbols.is_empty());
    assert_eq!(ui.render.pending_messages, vec!["Active subscriptions: none"]);
    assert_eq!(ui.app.log_messages.back().unwrap(), "Active subscriptions: ");
    ui.handle_event(UiEvent::SubscriptionList { symbols: vec!["A".to_string(), "B".to_string()] });
    assert_eq!(ui.render.pending_messages.last().unwrap(), "Active subscriptions: A, B");
}

#[test]
fn status_event_sets_info_and_stats() {
    let mut ui = session(vec![]);
    let stats = SessionStats { start_time: 5, commands_processed: 3, events_processed: 4, errors_encountered: 0 };
    let info = StatusInfo::running("0.1.0", vec!["BTCUSDT".to_string()], stats);
    ui.handle_event(UiEvent::StatusInfo { info });
    assert_eq!(ui.render.info_message.as_deref(), Some("Status → Version 0.1.0 | State Running | Subscriptions 1"));
    assert_eq!(ui.session_stats.commands_processed, 3);
    assert_eq!(ui.app.symbols, vec!["BTCUSDT"]);
    assert_eq!(ui.app.log_messages.back().unwrap(), "Session status updated: 1 symbols active");
}

#[test]
fn error_and_shutdown_events() {
    let mut ui = session(vec![]);
    ui.render.should_redraw = false;
    ui.handle_event(UiEvent::Error { message: "boom".to_string() });
    assert!(ui.render.should_redraw);
    assert_eq!(ui.render.error_message.as_deref(), Some("Error: boom"));
    ui.handle_event(UiEvent::ShutdownRequested);
    assert!(ui.render.should_quit);
    assert_eq!(ui.app.log_messages.back().unwrap(), "Shutdown requested by session manager");
}

#[test]
fn config_events_update_settings() {
    let mut ui = session(vec![]);
    let mut config = Config::default();
    config.refresh_rate_ms = 5;
    config.orderbook_depth = 7;
    ui.handle_event(UiEvent::ConfigInfo { config });
    assert_eq!(ui.refresh_interval_ms, 16);
    assert_eq!(ui.config.orderbook_depth, 7);
    assert_eq!(ui.render.info_message.as_deref(), Some("Config updated → refresh 5ms, depth 7"));
    ui.handle_event(UiEvent::ConfigReset);
    assert_eq!(ui.refresh_interval_ms, 100);
    assert_eq!(ui.config.orderbook_depth, 20);
    ui.handle_event(UiEvent::ConfigHelp);
    assert_eq!(
        ui.render.pending_messages.last().unwrap(),
        "Config commands: /config show | /config set <key> <value> | /config reset"
    );
}

#[test]
fn help_logs_and_alert_events_fill_the_log_panel() {
    let mut ui = session(vec![]);
    ui.handle_event(UiEvent::HelpInfo { lines: vec!["/add".to_string(), "/quit".to_string()] });
    assert_eq!(ui.app.log_messages, vec!["[help] /add", "[help] /quit"]);
    ui.handle_event(UiEvent::LogsInfo {
        info: LogsInfo { recent_logs: vec!["a".to_string(), "b".to_string()], log_file_path: "x".to_string(), log_level: "info".to_string() },
    });
    assert_eq!(ui.render.info_message.as_deref(), Some("Recent logs (info): a, b"));
    ui.handle_event(UiEvent::AlertList { entries: vec![] });
    assert_eq!(ui.app.log_messages.back().unwrap(), "[alert] No alerts configured");
    ui.handle_event(UiEvent::AlertNotification { message: "BTC above 1".to_string() });
    assert_eq!(ui.app.notifications.back().unwrap(), "BTC above 1");
    assert_eq!(ui.app.log_messages.back().unwrap(), "[alert] BTC above 1");
    ui.handle_event(UiEvent::UiModeChanged { enable_tui: false });
    assert_eq!(ui.render.pending_messages.last().unwrap(), "UI mode changed: TUI false");
}

#[test]
fn joining_texts() {
    assert_eq!(join_strings(&vec![], ", "), "");
    assert_eq!(join_strings(&vec!["a".to_string()], ", "), "a");
    assert_eq!(join_strings(&vec!["a".to_string(), "b".to_string(), "c".to_string()], "/"), "a/b/c");
}
