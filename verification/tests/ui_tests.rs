use xtrade::candles::DailyCandle;
use xtrade::fixed::parse_fixed;
use xtrade::ui::{AppState, InputMode, MarketDataState, RenderState, MAX_LOG_MESSAGES};

fn units(s: &str) -> i128 {
    parse_fixed(s).unwrap()
}

fn candle(open_ms: u64, close_ms: u64, o: i128, h: i128, l: i128, c: i128, v: i128, closed: bool) -> DailyCandle {
    DailyCandle::new(open_ms, close_ms, o * 100_000_000, h * 100_000_000, l * 100_000_000, c * 100_000_000, v * 100_000_000, closed)
}

#[test]
fn test_app_state_navigation() {
    let mut app = AppState::new(vec!["BTCUSDT".to_string(), "ETHUSDT".to_string()]);
    assert_eq!(app.selected_tab, 0);

    app.next_tab();
    assert_eq!(app.selected_tab, 1);

    app.next_tab();
    assert_eq!(app.selected_tab, 0);

    app.previous_tab();
    assert_eq!(app.selected_tab, 1);
}

#[test]
fn test_toggle_pause() {
    let mut app = AppState::new(vec![]);
    assert!(!app.paused);

    app.toggle_pause();
    assert!(app.paused);

    app.toggle_pause();
    assert!(!app.paused);
}

#[test]
fn kline_cache_limits_samples_by_width() {
    let mut state = MarketDataState::default();
    state.symbol = "TESTUSDT".to_string();

    for idx in 0..20i128 {
        let i = idx as u64;
        state.daily_candles.push(candle(1_000 + i * 1_000, 1_500 + i * 1_000, 100 + idx, 105 + idx, 95 + idx, 102 + idx, 10, true));
    }

    let cache = state.ensure_kline_cache(12).expect("cache should build");
    assert_eq!(cache.samples.len(), 6);
    assert_eq!(cache.samples.first().unwrap().open_time_ms, 1_000 + 14 * 1_000);
    assert_eq!(cache.samples.last().unwrap().close_time_ms, 1_500 + 19 * 1_000);
}

#[test]
fn kline_cache_invalidates_on_request() {
    let mut state = MarketDataState::default();
    state.daily_candles.push(candle(1_000, 2_000, 100, 110, 90, 105, 50, true));

    assert!(state.ensure_kline_cache(10).is_some());
    assert!(state.kline_render_cache.is_some());

    state.invalidate_kline_cache();
    assert!(state.kline_render_cache.is_none());
}

#[test]
fn kline_cache_handles_tiny_width() {
    let mut state = MarketDataState::default();
    state.daily_candles.push(candle(1_000, 2_000, 100, 110, 90, 105, 50, true));

    assert!(state.ensure_kline_cache(2).is_none());
}

#[test]
fn kline_refresh_throttles_and_forces() {
    let mut state = MarketDataState::default();
    let interval = 60_000;
    let base = 10_000_000u64;

    assert!(state.update_kline_refresh(base, interval, false));
    assert!(!state.update_kline_refresh(base + 10_000, interval, false));
    assert!(state.update_kline_refresh(base + 61_000, interval, false));
    assert!(state.update_kline_refresh(base + 62_000, interval, true));
}

#[test]
fn kline_cache_price_range_and_span() {
    let mut state = MarketDataState::default();
    state.daily_candles.push(candle(1_000, 2_000, 100, 110, 90, 105, 1, true));
    state.daily_candles.push(candle(2_000, 3_000, 105, 120, 95, 115, 1, false));
    let cache = state.ensure_kline_cache(8).unwrap();
    assert_eq!(cache.min_price, units("90"));
    assert_eq!(cache.max_price, units("120"));
    assert_eq!(cache.total_span_ms, 2_000);
    assert_eq!(cache.width, 8);
}

#[test]
fn log_panel_keeps_newest_lines() {
    let mut app = AppState::new(vec![]);
    for i in 0..(MAX_LOG_MESSAGES + 5) {
        app.push_log(format!("log {}", i));
    }
    assert_eq!(app.log_messages.len(), MAX_LOG_MESSAGES);
    assert_eq!(app.log_messages.front().unwrap(), "log 5");
    app.scroll_logs_up();
    app.scroll_logs_up();
    assert_eq!(app.log_scroll_offset, 2);
    app.scroll_logs_down();
    assert_eq!(app.log_scroll_offset, 1);
    app.reset_log_scroll();
    assert_eq!(app.log_scroll_offset, 0);
}

#[test]
fn notifications_are_bounded() {
    let mut app = AppState::new(vec![]);
    for i in 0..60 {
        app.push_notification(format!("n{}", i));
    }
    assert_eq!(app.notifications.len(), 50);
    assert_eq!(app.notifications.back().unwrap(), "n59");
}

#[test]
fn focus_and_symbol_management() {
    let mut app = AppState::new(vec!["A".to_string(), "B".to_string(), "C".to_string()]);
    app.focus_symbol("C");
    assert_eq!(app.selected_tab, 2);
    app.focus_symbol("Z");
    assert_eq!(app.selected_tab, 2);
    assert_eq!(app.current_symbol().unwrap(), "C");
    app.remove_symbol("C");
    assert_eq!(app.symbols, vec!["A", "B"]);
    assert_eq!(app.selected_tab, 1);
    assert!(app.add_symbol("D".to_string()));
    assert!(!app.add_symbol("A".to_string()));
    assert_eq!(app.symbols, vec!["A", "B", "D"]);
    app.set_symbols(vec![]);
    assert_eq!(app.selected_tab, 0);
    assert!(app.current_symbol().is_none());
}

#[test]
fn command_buffer_clears() {
    let mut app = AppState::new(vec![]);
    app.command_buffer.push_str("/status");
    app.clear_command();
    assert!(app.command_buffer.is_empty());
    assert_eq!(app.input_mode, InputMode::Normal);
    assert_eq!(InputMode::default(), InputMode::Normal);
}

#[test]
fn render_state_queues_messages() {
    let mut rs = RenderState::default();
    rs.should_redraw = false;
    rs.queue_message("hello".to_string());
    assert!(rs.should_redraw);
    assert_eq!(rs.pending_messages, vec!["hello"]);
}

#[test]
fn daily_candle_snapshot_is_sorted_and_bounded() {
    let mut state = MarketDataState::default();
    let mut candles = Vec::new();
    for i in (0..100u64).rev() {
        candles.push(candle(i * 1_000, i * 1_000 + 500, 1, 1, 1, 1, 1, true));
    }
    assert!(state.apply_daily_candles(candles, true));
    // the newest 90 of the snapshot as given (open times 89..0), then ordered
    assert_eq!(state.daily_candles.len(), 90);
    assert_eq!(state.daily_candles[0].open_time_ms, 0);
    assert_eq!(state.daily_candles[89].open_time_ms, 89_000);
}

#[test]
fn daily_candle_update_replaces_and_reports_closing() {
    let mut state = MarketDataState::default();
    state.apply_daily_candles(vec![candle(2_000, 2_500, 1, 1, 1, 1, 1, false)], true);
    // the open candle closes
    assert!(state.apply_daily_candles(vec![candle(2_000, 2_500, 1, 2, 1, 2, 1, true)], false));
    assert_eq!(state.daily_candles.len(), 1);
    assert!(state.daily_candles[0].is_closed);
    // an open candle for an earlier day goes in front, closes nothing
    assert!(!state.apply_daily_candles(vec![candle(1_000, 1_500, 1, 1, 1, 1, 1, false)], false));
    assert_eq!(state.daily_candles[0].open_time_ms, 1_000);
    assert!(state.kline_render_cache.is_none());
}

#[test]
fn price_history_keeps_newest_points() {
    let mut state = MarketDataState::default();
    for i in 0..5i128 {
        state.record_price(i, i as u64, 1);
    }
    assert_eq!(state.price, 4);
    assert_eq!(state.price_history.len(), 2);
    assert_eq!(state.price_history[0].price, 3);
    state.apply_ticker(10, 2, 12, 8, 100);
    assert_eq!(state.price, 10);
    assert_eq!(state.high_24h, 12);
    assert_eq!(state.volume_24h, 100);
}
