use xtrade::alerts::AlertDirection;
use xtrade::cli::ConfigAction;
use xtrade::commands::{AlertAction, ClearTarget, CommandError, CommandRouter, InteractiveCommand};
use xtrade::fixed::parse_fixed;

#[test]
fn parses_alert_add_command() {
    let router = CommandRouter::new();
    let cmd = router
        .parse_interactive_command("/alert add btcusdt above 45000")
        .unwrap()
        .unwrap();
    match cmd {
        InteractiveCommand::Alert { action: AlertAction::Add { symbol, direction, price } } => {
            assert_eq!(symbol, "btcusdt");
            assert_eq!(direction, AlertDirection::Above);
            assert_eq!(price, parse_fixed("45000.0").unwrap());
        }
        other => panic!("Unexpected command parsed: {:?}", other),
    }
}

#[test]
fn rejects_invalid_alert_direction() {
    let router = CommandRouter::new();
    let err = router.parse_interactive_command("/alert add btcusdt around 45000").unwrap_err();
    assert!(err.message().contains("Invalid direction 'around'. Use 'above' or 'below'."));
}

#[test]
fn empty_input_is_no_command() {
    let router = CommandRouter::new();
    assert!(router.parse_interactive_command("   ").unwrap().is_none());
}

#[test]
fn add_and_remove_commands_take_symbols() {
    let router = CommandRouter::new();
    match router.parse_interactive_command("/add btcusdt ethusdt").unwrap().unwrap() {
        InteractiveCommand::Add { symbols } => assert_eq!(symbols.len(), 2),
        other => panic!("unexpected {:?}", other),
    }
    let err = router.parse_interactive_command("/add").unwrap_err();
    assert!(matches!(err, CommandError::AddUsage));
    assert_eq!(err.message(), "Usage: add <symbol1> [symbol2] ...");
    let err = router.parse_interactive_command("/remove").unwrap_err();
    assert!(matches!(err, CommandError::RemoveUsage));
}

#[test]
fn config_set_command_is_parsed() {
    let router = CommandRouter::new();
    match router.parse_interactive_command("/config set refresh_rate_ms 200").unwrap().unwrap() {
        InteractiveCommand::Config { action: Some(ConfigAction::SetValue { key, value }) } => {
            assert_eq!(key, "refresh_rate_ms");
            assert_eq!(value, "200");
        }
        other => panic!("unexpected {:?}", other),
    }
}

#[test]
fn alert_clear_commands() {
    let router = CommandRouter::new();
    match router.parse_interactive_command("/alert clear all").unwrap().unwrap() {
        InteractiveCommand::Alert { action: AlertAction::Clear { target: ClearTarget::All } } => {}
        other => panic!("unexpected {:?}", other),
    }
    let err = router.parse_interactive_command("/alert clear x").unwrap_err();
    assert!(matches!(err, CommandError::InvalidAlertId(_)));
}

#[test]
fn unknown_command_is_reported() {
    let router = CommandRouter::new();
    let err = router.parse_interactive_command("/frobnicate").unwrap_err();
    assert!(err.message().starts_with("Unknown command"));
}

#[test]
fn router_interactive_mode_toggles() {
    let mut router = CommandRouter::new();
    assert!(!router.is_interactive_mode());
    router.start_interactive_mode();
    assert!(router.is_interactive_mode());
    router.stop_interactive_mode();
    assert!(!router.is_interactive_mode());
    assert!(!CommandRouter::help_messages().is_empty());
    assert!(!CommandRouter::commands().is_empty());
}
