use xtrade::alerts::{AlertDirection, AlertError, AlertManager, AlertOptions, AlertRepeat};
use xtrade::fixed::parse_fixed;

fn units(s: &str) -> i128 {
    parse_fixed(s).unwrap()
}

fn repeat_options(cooldown_ms: u64, hysteresis: &str) -> AlertOptions {
    AlertOptions { repeat: AlertRepeat::Repeat, cooldown_ms, hysteresis: units(hysteresis) }
}

#[test]
fn alert_fires_when_price_crosses_above() {
    let mut m = AlertManager::new();
    m.add_alert_with_options_at("BTCUSDT".to_string(), AlertDirection::Above, units("100"), repeat_options(0, "0"), 0)
        .unwrap();
    let (t, changed) = m.evaluate_price_at("BTCUSDT", units("99"), 10);
    assert!(t.is_empty());
    assert!(!changed);
    let (t, changed) = m.evaluate_price_at("BTCUSDT", units("101"), 20);
    assert_eq!(t.len(), 1);
    assert_eq!(t[0].price, units("101"));
    assert!(changed);
    // staying above does not fire again
    let (t, _) = m.evaluate_price_at("BTCUSDT", units("102"), 30);
    assert!(t.is_empty());
}

#[test]
fn other_symbols_are_not_evaluated() {
    let mut m = AlertManager::new();
    m.add_alert_with_options_at("BTCUSDT".to_string(), AlertDirection::Below, units("100"), repeat_options(0, "0"), 0)
        .unwrap();
    let (t, changed) = m.evaluate_price_at("ETHUSDT", units("1"), 10);
    assert!(t.is_empty() && !changed);
}

#[test]
fn repeat_alert_rearms_after_hysteresis_and_respects_cooldown() {
    let mut m = AlertManager::new();
    m.add_alert_with_options_at("X".to_string(), AlertDirection::Above, units("100"), repeat_options(1_000, "5"), 0)
        .unwrap();
    assert_eq!(m.evaluate_price_at("X", units("101"), 100).0.len(), 1);
    // back below threshold - hysteresis: re-arm
    m.evaluate_price_at("X", units("94"), 200);
    // crosses again within cooldown: arms as triggered but no notification
    assert_eq!(m.evaluate_price_at("X", units("101"), 300).0.len(), 0);
    m.evaluate_price_at("X", units("90"), 400);
    // after cooldown: notifies
    assert_eq!(m.evaluate_price_at("X", units("101"), 5_000).0.len(), 1);
}

#[test]
fn once_alert_notifies_only_once() {
    let mut m = AlertManager::new();
    let opts = AlertOptions { repeat: AlertRepeat::Once, cooldown_ms: 0, hysteresis: 0 };
    m.add_alert_with_options_at("X".to_string(), AlertDirection::Below, units("50"), opts, 0).unwrap();
    assert_eq!(m.evaluate_price_at("X", units("49"), 1).0.len(), 1);
    m.evaluate_price_at("X", units("60"), 2);
    assert_eq!(m.evaluate_price_at("X", units("40"), 3).0.len(), 0);
}

#[test]
fn invalid_alerts_are_refused() {
    let mut m = AlertManager::new();
    let err = m.add_alert_with_options_at("X".to_string(), AlertDirection::Above, 0, repeat_options(0, "0"), 0)
        .unwrap_err();
    assert_eq!(err, AlertError::InvalidThreshold);
    assert_eq!(err.message(), "Threshold must be a positive, finite number");
    let err = m.add_alert_with_options_at("  ".to_string(), AlertDirection::Above, units("1"), repeat_options(0, "0"), 0)
        .unwrap_err();
    assert_eq!(err, AlertError::EmptySymbol);
    let bad = AlertOptions { repeat: AlertRepeat::Repeat, cooldown_ms: 0, hysteresis: -1 };
    let err = m.add_alert_with_options_at("X".to_string(), AlertDirection::Above, units("1"), bad, 0).unwrap_err();
    assert_eq!(err, AlertError::InvalidHysteresis);
}

#[test]
fn alert_limit_is_enforced() {
    let mut m = AlertManager::new();
    for _ in 0..50 {
        m.add_alert_with_options_at("X".to_string(), AlertDirection::Above, units("1"), repeat_options(0, "0"), 0)
            .unwrap();
    }
    let err = m.add_alert_with_options_at("X".to_string(), AlertDirection::Above, units("1"), repeat_options(0, "0"), 0)
        .unwrap_err();
    assert_eq!(err, AlertError::LimitReached);
    assert_eq!(m.clear_all(), 50);
    assert!(m.list_alerts().is_empty());
}

#[test]
fn clearing_alerts_by_id() {
    let mut m = AlertManager::new();
    let a = m.add_alert_with_options_at("X".to_string(), AlertDirection::Above, units("1"), repeat_options(0, "0"), 0)
        .unwrap();
    let b = m.add_alert_with_options_at("Y".to_string(), AlertDirection::Below, units("2"), repeat_options(0, "0"), 0)
        .unwrap();
    assert_eq!(a.id, 1);
    assert_eq!(b.id, 2);
    assert!(m.clear_alert(1));
    assert!(!m.clear_alert(1));
    let left = m.list_alerts();
    assert_eq!(left.len(), 1);
    assert_eq!(left[0].symbol, "Y");
}

#[test]
fn default_options_for_threshold() {
    let o = AlertOptions::default_for_threshold(units("100"));
    assert_eq!(o.repeat, AlertRepeat::Repeat);
}

#[test]
fn alert_fires_again_only_after_a_dip() {
    let mut m = AlertManager::new();
    m.add_alert_with_options_at("BTCUSDT".to_string(), AlertDirection::Above, units("100"), repeat_options(0, "0"), 0)
        .unwrap();
    assert_eq!(m.evaluate_price_at("BTCUSDT", units("100"), 10).0.len(), 1);
    // touching the threshold again is no dip: nothing fires
    m.evaluate_price_at("BTCUSDT", units("100"), 20);
    assert!(m.evaluate_price_at("BTCUSDT", units("105"), 30).0.is_empty());
    // a dip below the threshold re-arms; the next crossing fires
    m.evaluate_price_at("BTCUSDT", units("99.5"), 40);
    let (t, changed) = m.evaluate_price_at("BTCUSDT", units("103"), 50);
    assert_eq!(t.len(), 1);
    assert_eq!(t[0].price, units("103"));
    assert_eq!(t[0].threshold, units("100"));
    assert!(changed);
}

#[test]
fn very_large_thresholds_are_accepted() {
    let mut m = AlertManager::new();
    let huge: i128 = 10_000_000_000_000_000_000_000_000_000;
    let a = m
        .add_alert_with_options_at("BTCUSDT".to_string(), AlertDirection::Below, huge, repeat_options(0, "0"), 0)
        .unwrap();
    assert_eq!(a.threshold, huge);
    let top = m
        .add_alert_with_options_at("BTCUSDT".to_string(), AlertDirection::Below, i128::MAX, AlertOptions {
            repeat: AlertRepeat::Repeat,
            cooldown_ms: 0,
            hysteresis: i128::MAX,
        }, 0)
        .unwrap();
    assert_eq!(top.threshold, i128::MAX);
    let (t, _) = m.evaluate_price_at("BTCUSDT", 1, 10);
    assert_eq!(t.len(), 2);
    // far above: the Below alert with the largest hysteresis cannot re-arm, the other does
    m.evaluate_price_at("BTCUSDT", i128::MAX, 20);
    assert!(m.list_alerts().iter().any(|a| a.threshold == i128::MAX && a.triggered));
    assert_eq!(m.add_alert_with_options_at("X".to_string(), AlertDirection::Above, 0, repeat_options(0, "0"), 0).unwrap_err(), AlertError::InvalidThreshold);
}
