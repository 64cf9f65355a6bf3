//! Session bookkeeping: lifecycle state, settings, statistics, the status
//! and log reports, configuration commands and the metrics feed cadence.

use vstd::prelude::*;
use vstd::string::*;
use crate::cli::{Cli, ConfigAction};
use crate::config::{Config, SettingError, setting_result, is_default_config};
use crate::logbuf::{LogBuffer, last_n, recent_logs};
use crate::text::strings_view;
use crate::clock::now_ms;
use crate::metrics::sat_sub;
use crate::stream;
use crate::metrics;

verus! {

/// Lines shown by the logs command.
pub const LOGS_COMMAND_LIMIT: usize = 100;

/// Lifecycle of an interactive session.
#[derive(Debug, Clone, Copy, PartialEq, Eq, Structural)]
pub enum SessionState {
    Starting,
    Running,
    Paused,
    ShuttingDown,
    Terminated,
}

/// Settings of an interactive session.
#[derive(Debug, Clone, Copy, PartialEq, Eq, Structural)]
pub struct SessionConfig {
    pub enable_tui: bool,
    pub enable_metrics: bool,
    pub auto_subscribe: bool,
    pub session_timeout_ms: u64,
}

impl Default for SessionConfig {
    /// Full-screen display, metrics and auto-subscription on; one hour timeout.
    fn default() -> (r: Self)
        ensures
            r == (SessionConfig {
                enable_tui: true,
                enable_metrics: true,
                auto_subscribe: true,
                session_timeout_ms: 3600000,
            }),
    {
        SessionConfig { enable_tui: true, enable_metrics: true, auto_subscribe: true, session_timeout_ms: 3600000 }
    }
}

/// What starting a session sets up, in this order.
#[derive(Debug, Clone, Copy, PartialEq, Eq, Structural)]
pub struct StartupPlan {
    pub init_ui: bool,
    pub init_metrics: bool,
    pub auto_subscribe: bool,
    pub send_help: bool,
}

impl SessionConfig {
    /// The display first, then metrics and auto-subscription as enabled, and
    /// the command help for the full-screen display.
    pub fn startup_plan(&self) -> (r: StartupPlan)
        ensures
            r == (StartupPlan {
                init_ui: self.enable_tui,
                init_metrics: self.enable_metrics,
                auto_subscribe: self.auto_subscribe,
                send_help: self.enable_tui,
            }),
    {
        StartupPlan {
            init_ui: self.enable_tui,
            init_metrics: self.enable_metrics,
            auto_subscribe: self.auto_subscribe,
            send_help: self.enable_tui,
        }
    }
}

/// Counters of a session; `start_time` in ms since the epoch.
#[derive(Debug, Clone, Copy, PartialEq, Eq, Structural)]
pub struct SessionStats {
    pub start_time: u64,
    pub commands_processed: u64,
    pub events_processed: u64,
    pub errors_encountered: u64,
}

impl SessionStats {
    /// Zero counters for a session started at `now`.
    pub fn new_at(now: u64) -> (r: Self)
        ensures
            r == (SessionStats { start_time: now, commands_processed: 0, events_processed: 0, errors_encountered: 0 }),
    {
        SessionStats { start_time: now, commands_processed: 0, events_processed: 0, errors_encountered: 0 }
    }

    pub fn record_command(&mut self)
        requires
            old(self).commands_processed < u64::MAX,
        ensures
            *final(self) == (SessionStats { commands_processed: (old(self).commands_processed + 1) as u64, ..*old(self) }),
    {
        self.commands_processed = self.commands_processed + 1;
    }

    pub fn record_event(&mut self)
        requires
            old(self).events_processed < u64::MAX,
        ensures
            *final(self) == (SessionStats { events_processed: (old(self).events_processed + 1) as u64, ..*old(self) }),
    {
        self.events_processed = self.events_processed + 1;
    }

    pub fn record_error(&mut self)
        requires
            old(self).errors_encountered < u64::MAX,
        ensures
            *final(self) == (SessionStats { errors_encountered: (old(self).errors_encountered + 1) as u64, ..*old(self) }),
    {
        self.errors_encountered = self.errors_encountered + 1;
    }

    /// The session has run longer than `timeout_ms` at `now`.
    pub fn timed_out_at(&self, timeout_ms: u64, now: u64) -> (r: bool)
        requires
            now >= self.start_time,
        ensures
            r == (now - self.start_time > timeout_ms),
    {
        now - self.start_time > timeout_ms
    }
}

impl Default for SessionStats {
    /// Zero counters, started now.
    fn default() -> (r: Self)
        ensures
            r.commands_processed == 0,
            r.events_processed == 0,
            r.errors_encountered == 0,
    {
        SessionStats::new_at(now_ms())
    }
}

/// A status report of the session.
#[derive(Debug, Clone)]
pub struct StatusInfo {
    pub version: String,
    pub state: String,
    pub active_subscriptions: usize,
    pub symbols: Vec<String>,
    pub session_stats: SessionStats,
}

impl StatusInfo {
    /// The report of a running session with these subscriptions.
    pub fn running(version: &str, symbols: Vec<String>, stats: SessionStats) -> (r: Self)
        ensures
            r.version@ == version@,
            r.state@ == "Running"@,
            r.active_subscriptions == symbols@.len(),
            r.symbols@ == symbols@,
            r.session_stats == stats,
    {
        let n = symbols.len();
        StatusInfo {
            version: String::from_str(version),
            state: String::from_str("Running"),
            active_subscriptions: n,
            symbols,
            session_stats: stats,
        }
    }
}

/// A report of the recent log lines.
#[derive(Debug, Clone)]
pub struct LogsInfo {
    pub recent_logs: Vec<String>,
    pub log_file_path: String,
    pub log_level: String,
}

impl LogsInfo {
    /// The newest `LOGS_COMMAND_LIMIT` lines (or a placeholder line when the
    /// log is empty), the log file and the effective log level.
    pub fn collect(buffer: &LogBuffer, config: &Config, cli: &Cli) -> (r: Self)
        ensures
            strings_view(r.recent_logs@) == (if buffer@.len() == 0 {
                seq!["(no log entries captured yet)"@]
            } else {
                last_n(buffer@, LOGS_COMMAND_LIMIT as nat)
            }),
            r.log_file_path@ == config.log.file_path@,
            r.log_level@ == (if cli.verbose {
                "debug"@
            } else {
                cli.log_level@
            }),
    {
        let mut lines = recent_logs(buffer, LOGS_COMMAND_LIMIT);
        if lines.len() == 0 {
            lines.push(String::from_str("(no log entries captured yet)"));
            proof {
                assert(strings_view(lines@) =~= seq!["(no log entries captured yet)"@]);
            }
        }
        proof {
            if buffer@.len() > 0 {
                assert(last_n(buffer@, LOGS_COMMAND_LIMIT as nat).len() > 0);
            }
        }
        LogsInfo { recent_logs: lines, log_file_path: config.log.file_path.clone(), log_level: cli.effective_log_level() }
    }
}

/// What a configuration command leads to.
#[derive(Debug, Clone)]
pub enum ConfigOutcome {
    /// Show the configuration.
    Show,
    /// A setting changed; show the configuration.
    Updated,
    /// The setting was refused; report the error.
    Refused(SettingError),
    /// The configuration went back to its defaults; report that and show it.
    Reset,
    /// No action was given; show the configuration help.
    Help,
}

/// Applies a configuration command to the session's configuration.
pub fn apply_config_action(config: &mut Config, action: Option<ConfigAction>) -> (r: ConfigOutcome)
    ensures
        match action {
            None => r is Help && *final(config) == *old(config),
            Some(ConfigAction::Show) => r is Show && *final(config) == *old(config),
            Some(ConfigAction::SetValue { key, value }) => match r {
                ConfigOutcome::Updated => setting_result(*old(config), *final(config), key@, value@, Ok(())),
                ConfigOutcome::Refused(e) => setting_result(*old(config), *final(config), key@, value@, Err(e)),
                _ => false,
            },
            Some(ConfigAction::Reset) => r is Reset && is_default_config(*final(config)),
        },
{
    match action {
        None => ConfigOutcome::Help,
        Some(ConfigAction::Show) => ConfigOutcome::Show,
        Some(ConfigAction::SetValue { key, value }) => match config.apply_setting(key.as_str(), value.as_str()) {
            Ok(()) => ConfigOutcome::Updated,
            Err(e) => ConfigOutcome::Refused(e),
        },
        Some(ConfigAction::Reset) => {
            *config = Config::default();
            ConfigOutcome::Reset
        },
    }
}

/// The shortest metrics emission interval, in ms.
pub const MIN_METRICS_EMIT_INTERVAL_MS: u64 = 50;

/// How the session feeds connection metrics to the display: the last
/// reported connection status and the emission cadence.
#[derive(Debug, Clone)]
pub struct MetricsState {
    pub status: metrics::ConnectionStatus,
    pub last_emit_ms: u64,
    pub emit_interval_ms: u64,
}

/// `m` reports the connection status `s`: the same state, with the same
/// error text.
pub open spec fn reports_status(m: metrics::ConnectionStatus, s: stream::ConnectionStatus) -> bool {
    match s {
        stream::ConnectionStatus::Disconnected => m is Disconnected,
        stream::ConnectionStatus::Connecting => m is Connecting,
        stream::ConnectionStatus::Connected => m is Connected,
        stream::ConnectionStatus::Reconnecting => m is Reconnecting,
        stream::ConnectionStatus::Error(e) => m matches metrics::ConnectionStatus::Error(x) && x@ == e@,
    }
}

/// The metrics status for a connection status.
pub fn to_metrics_status(s: &stream::ConnectionStatus) -> (r: metrics::ConnectionStatus)
    ensures
        reports_status(r, *s),
{
    match s {
        stream::ConnectionStatus::Disconnected => metrics::ConnectionStatus::Disconnected,
        stream::ConnectionStatus::Connecting => metrics::ConnectionStatus::Connecting,
        stream::ConnectionStatus::Connected => metrics::ConnectionStatus::Connected,
        stream::ConnectionStatus::Reconnecting => metrics::ConnectionStatus::Reconnecting,
        stream::ConnectionStatus::Error(e) => metrics::ConnectionStatus::Error(e.clone()),
    }
}

impl MetricsState {
    /// Disconnected, last emission at `now`, every 100 ms.
    pub fn new_at(now: u64) -> (r: Self)
        ensures
            r.status == metrics::ConnectionStatus::Disconnected,
            r.last_emit_ms == now,
            r.emit_interval_ms == 100,
    {
        MetricsState { status: metrics::ConnectionStatus::Disconnected, last_emit_ms: now, emit_interval_ms: 100 }
    }

    /// Emits at the display refresh rate, at most every 50 ms.
    pub fn set_emit_interval(&mut self, refresh_rate_ms: u64)
        ensures
            final(self).emit_interval_ms == (if refresh_rate_ms >= MIN_METRICS_EMIT_INTERVAL_MS {
                refresh_rate_ms
            } else {
                MIN_METRICS_EMIT_INTERVAL_MS
            }),
            final(self).status == old(self).status,
            final(self).last_emit_ms == old(self).last_emit_ms,
    {
        self.emit_interval_ms = if refresh_rate_ms >= MIN_METRICS_EMIT_INTERVAL_MS {
            refresh_rate_ms
        } else {
            MIN_METRICS_EMIT_INTERVAL_MS
        };
    }

    /// Notes a connection status change.
    pub fn observe_status(&mut self, status: &stream::ConnectionStatus)
        ensures
            reports_status(final(self).status, *status),
            final(self).last_emit_ms == old(self).last_emit_ms,
            final(self).emit_interval_ms == old(self).emit_interval_ms,
    {
        self.status = to_metrics_status(status);
    }

    /// A metrics snapshot is due at `now`.
    pub fn should_emit(&self, now: u64) -> (r: bool)
        ensures
            r == (sat_sub(now, self.last_emit_ms) >= self.emit_interval_ms),
    {
        let elapsed = if now > self.last_emit_ms { now - self.last_emit_ms } else { 0 };
        elapsed >= self.emit_interval_ms
    }

    /// Notes that a snapshot went out at `now`.
    pub fn mark_emitted(&mut self, now: u64)
        ensures
            final(self).last_emit_ms == now,
            final(self).status == old(self).status,
            final(self).emit_interval_ms == old(self).emit_interval_ms,
    {
        self.last_emit_ms = now;
    }
}

} // verus!
