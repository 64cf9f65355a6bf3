//! How the interactive display takes in session events: which messages it
//! shows, which lines it logs, and how its tabs, settings and statistics
//! change.

use vstd::prelude::*;
use vstd::string::*;
use crate::config::{Config, is_default_config};
use crate::fixed::{decimal, format_u64};
use crate::logbuf::last_n;
use crate::session::{LogsInfo, SessionStats, StatusInfo};
use crate::text::strings_view;
use crate::ui::{AppState, RenderState, MAX_LOG_MESSAGES, MAX_NOTIFICATIONS, first_index_of, normalized_tab,
    offset_after_logs, without_symbol};

verus! {

/// The shortest display refresh interval, in ms.
pub const MIN_REFRESH_INTERVAL_MS: u64 = 16;

/// Session events the display reacts to.
#[derive(Debug)]
pub enum UiEvent {
    ShutdownRequested,
    Error { message: String },
    SubscriptionAdded { symbol: String },
    SubscriptionRemoved { symbol: String },
    SubscriptionList { symbols: Vec<String> },
    StatusInfo { info: StatusInfo },
    UiModeChanged { enable_tui: bool },
    ConfigInfo { config: Config },
    ConfigReset,
    ConfigHelp,
    HelpInfo { lines: Vec<String> },
    LogsInfo { info: LogsInfo },
    AlertNotification { message: String },
    AlertList { entries: Vec<String> },
}

/// The texts joined with `sep` between them.
pub open spec fn joined(s: Seq<Seq<char>>, sep: Seq<char>) -> Seq<char>
    decreases s.len(),
{
    if s.len() == 0 {
        Seq::empty()
    } else if s.len() == 1 {
        s[0]
    } else {
        joined(s.drop_last(), sep) + sep + s.last()
    }
}

/// "true" or "false".
pub open spec fn bool_text(b: bool) -> Seq<char> {
    if b {
        "true"@
    } else {
        "false"@
    }
}

/// The line announcing a status report.
pub open spec fn status_text(info: StatusInfo) -> Seq<char> {
    "Status → Version "@ + info.version@ + " | State "@ + info.state@ + " | Subscriptions "@ + decimal(
        info.active_subscriptions as nat,
    )
}

/// The line announcing a configuration.
pub open spec fn config_text(c: Config) -> Seq<char> {
    "Config updated → refresh "@ + decimal(c.refresh_rate_ms as nat) + "ms, depth "@ + decimal(
        c.orderbook_depth as nat,
    )
}

/// Each text with `prefix` in front.
pub open spec fn prefixed(s: Seq<Seq<char>>, prefix: Seq<char>) -> Seq<Seq<char>> {
    s.map_values(|t: Seq<char>| prefix + t)
}

/// The messages an event queues for display and the lines it logs, given
/// the symbols shown before it.
pub open spec fn event_texts(symbols: Seq<String>, e: UiEvent) -> (Seq<Seq<char>>, Seq<Seq<char>>) {
    match e {
        UiEvent::ShutdownRequested => (
            seq!["Shutdown requested. Exiting interactive session..."@],
            seq!["Shutdown requested by session manager"@],
        ),
        UiEvent::Error { message } => (seq!["Error: "@ + message@], seq!["Error: "@ + message@]),
        UiEvent::SubscriptionAdded { symbol } => if first_index_of(symbols, symbol@) is None {
            (seq!["Subscribed to "@ + symbol@], seq!["Subscribed to "@ + symbol@])
        } else {
            (Seq::empty(), Seq::empty())
        },
        UiEvent::SubscriptionRemoved { symbol } => (
            seq!["Unsubscribed from "@ + symbol@],
            seq!["Unsubscribed from "@ + symbol@],
        ),
        UiEvent::SubscriptionList { symbols: l } => (
            seq![
                "Active subscriptions: "@ + (if l@.len() == 0 {
                    "none"@
                } else {
                    joined(strings_view(l@), ", "@)
                }),
            ],
            seq!["Active subscriptions: "@ + joined(strings_view(l@), ", "@)],
        ),
        UiEvent::StatusInfo { info } => (
            seq![status_text(info)],
            seq![
                "Session status updated: "@ + decimal(info.active_subscriptions as nat)
                    + " symbols active"@,
            ],
        ),
        UiEvent::UiModeChanged { enable_tui } => (
            seq!["UI mode changed: TUI "@ + bool_text(enable_tui)],
            seq!["UI mode changed: TUI "@ + bool_text(enable_tui)],
        ),
        UiEvent::ConfigInfo { config } => (seq![config_text(config)], seq!["Configuration updated"@]),
        UiEvent::ConfigReset => (seq!["Configuration reset to defaults"@], seq!["Configuration reset to defaults"@]),
        UiEvent::ConfigHelp => (
            seq!["Config commands: /config show | /config set <key> <value> | /config reset"@],
            seq!["Displayed config help"@],
        ),
        UiEvent::HelpInfo { lines } => (
            if lines@.len() > 0 {
                seq!["Help commands listed in log panel (use Up/Down to scroll)"@]
            } else {
                Seq::empty()
            },
            prefixed(strings_view(lines@), "[help] "@),
        ),
        UiEvent::LogsInfo { info } => (
            seq!["Recent logs ("@ + info.log_level@ + "): "@ + joined(strings_view(info.recent_logs@), ", "@)],
            strings_view(info.recent_logs@),
        ),
        UiEvent::AlertNotification { message } => (seq![message@], seq!["[alert] "@ + message@]),
        UiEvent::AlertList { entries } => if entries@.len() == 0 {
            (seq!["No alerts configured"@], seq!["[alert] No alerts configured"@])
        } else {
            (seq!["Alerts listed in log panel"@], prefixed(strings_view(entries@), "[alert] "@))
        },
    }
}

/// The display: its state, rendering bookkeeping, the configuration it
/// shows, its refresh interval and the latest session statistics.
#[derive(Debug)]
pub struct UiSession {
    pub app: AppState,
    pub render: RenderState,
    pub config: Config,
    pub refresh_interval_ms: u64,
    pub session_stats: SessionStats,
}

/// The texts joined with `sep` between them.
pub fn join_strings(v: &Vec<String>, sep: &str) -> (r: String)
    ensures
        r@ == joined(strings_view(v@), sep@),
{
    let mut out = String::new();
    let mut i: usize = 0;
    while i < v.len()
        invariant
            i <= v@.len(),
            out@ == joined(strings_view(v@).subrange(0, i as int), sep@),
        decreases v@.len() - i,
    {
        let ghost sub = strings_view(v@).subrange(0, i + 1);
        proof {
            assert(sub.drop_last() =~= strings_view(v@).subrange(0, i as int));
            assert(sub.last() == v@[i as int]@);
        }
        if i > 0 {
            out.append(sep);
        }
        out.append(v[i].as_str());
        proof {
            if i == 0 {
                assert(out@ =~= sub[0]);
            } else {
                assert(out@ =~= joined(sub.drop_last(), sep@) + sep@ + sub.last());
            }
        }
        i = i + 1;
    }
    proof {
        assert(strings_view(v@).subrange(0, v@.len() as int) =~= strings_view(v@));
    }
    out
}

/// Each text with `prefix` in front.
fn prefix_all(v: &Vec<String>, prefix: &str) -> (r: Vec<String>)
    ensures
        strings_view(r@) == prefixed(strings_view(v@), prefix@),
{
    let mut out: Vec<String> = Vec::new();
    let mut i: usize = 0;
    while i < v.len()
        invariant
            i <= v@.len(),
            strings_view(out@) == prefixed(strings_view(v@).subrange(0, i as int), prefix@),
        decreases v@.len() - i,
    {
        let ghost o0 = out@;
        let mut line = String::from_str(prefix);
        line.append(v[i].as_str());
        out.push(line);
        proof {
            assert(strings_view(out@) =~= strings_view(o0).push(prefix@ + v@[i as int]@));
            assert(prefixed(strings_view(v@).subrange(0, i + 1), prefix@) =~= prefixed(
                strings_view(v@).subrange(0, i as int),
                prefix@,
            ).push(prefix@ + v@[i as int]@));
        }
        i = i + 1;
    }
    proof {
        assert(strings_view(v@).subrange(0, v@.len() as int) =~= strings_view(v@));
    }
    out
}

/// Copies of the texts.
fn copy_all(v: &Vec<String>) -> (r: Vec<String>)
    ensures
        strings_view(r@) == strings_view(v@),
{
    let mut out: Vec<String> = Vec::new();
    let mut i: usize = 0;
    while i < v.len()
        invariant
            i <= v@.len(),
            strings_view(out@) == strings_view(v@).subrange(0, i as int),
        decreases v@.len() - i,
    {
        let ghost o0 = out@;
        out.push(v[i].clone());
        proof {
            assert(strings_view(out@) =~= strings_view(o0).push(v@[i as int]@));
            assert(strings_view(v@).subrange(0, i + 1) =~= strings_view(v@).subrange(0, i as int).push(
                v@[i as int]@,
            ));
        }
        i = i + 1;
    }
    out
}

fn one(s: String) -> (r: Vec<String>)
    ensures
        r@ == seq![s],
        strings_view(r@) == seq![s@],
{
    let mut v: Vec<String> = Vec::new();
    v.push(s);
    proof {
        assert(strings_view(v@) =~= seq![s@]);
    }
    v
}

fn bool_string(b: bool) -> (r: String)
    ensures
        r@ == bool_text(b),
{
    if b {
        String::from_str("true")
    } else {
        String::from_str("false")
    }
}

proof fn lemma_views_concat(a: Seq<String>, b: Seq<String>)
    ensures
        strings_view(a + b) == strings_view(a) + strings_view(b),
{
    assert(strings_view(a + b) =~= strings_view(a) + strings_view(b));
}

proof fn lemma_views_last_n(s: Seq<String>, n: nat)
    ensures
        strings_view(last_n(s, n)) == last_n(strings_view(s), n),
{
    assert(strings_view(last_n(s, n)) =~= last_n(strings_view(s), n));
}

proof fn lemma_views_push(s: Seq<String>, x: String)
    ensures
        strings_view(s.push(x)) == strings_view(s).push(x@),
{
    assert(strings_view(s.push(x)) =~= strings_view(s).push(x@));
}

/// The display state after the logged lines of an event: the log gets the
/// lines (the newest `MAX_LOG_MESSAGES` kept) and a scrolled view stays
/// within it.
pub open spec fn logged(pre: AppState, post: AppState, lines: Seq<Seq<char>>) -> bool {
    &&& lines.len() > 0 ==> strings_view(post.log_messages@) == last_n(
        strings_view(pre.log_messages@) + lines,
        MAX_LOG_MESSAGES as nat,
    )
    &&& lines.len() == 0 ==> post.log_messages@ == pre.log_messages@
    &&& post.log_scroll_offset == offset_after_logs(pre.log_scroll_offset, pre.log_messages@.len(), lines.len())
}

/// The symbols the display shows after an event.
pub open spec fn symbols_after(pre: Seq<String>, e: UiEvent, post: Seq<String>) -> bool {
    match e {
        UiEvent::SubscriptionAdded { symbol } => if first_index_of(pre, symbol@) is None {
            post == pre.push(symbol)
        } else {
            post == pre
        },
        UiEvent::SubscriptionRemoved { symbol } => strings_view(post) == without_symbol(strings_view(pre), symbol@),
        UiEvent::SubscriptionList { symbols } => post == symbols@,
        UiEvent::StatusInfo { info } => post == info.symbols@,
        _ => post == pre,
    }
}

/// Whether an event replaces the symbol list.
pub open spec fn changes_symbols(pre: Seq<String>, e: UiEvent) -> bool {
    match e {
        UiEvent::SubscriptionAdded { symbol } => first_index_of(pre, symbol@) is None,
        UiEvent::SubscriptionRemoved { .. } => true,
        UiEvent::SubscriptionList { .. } => true,
        UiEvent::StatusInfo { .. } => true,
        _ => false,
    }
}

/// The info line an event sets, if any.
pub open spec fn info_text(e: UiEvent) -> Option<Seq<char>> {
    match e {
        UiEvent::StatusInfo { info } => Some(status_text(info)),
        UiEvent::ConfigInfo { config } => Some(config_text(config)),
        UiEvent::ConfigReset => Some("Configuration reset to defaults"@),
        UiEvent::LogsInfo { info } => Some(
            "Recent logs ("@ + info.log_level@ + "): "@ + joined(strings_view(info.recent_logs@), ", "@),
        ),
        _ => None,
    }
}

impl UiSession {
    /// Queues the messages and logs the lines of a step.
    fn announce(&mut self, messages: Vec<String>, lines: Vec<String>)
        ensures
            strings_view(final(self).render.pending_messages@) == strings_view(old(self).render.pending_messages@)
                + strings_view(messages@),
            messages@.len() > 0 ==> final(self).render.should_redraw,
            messages@.len() == 0 ==> final(self).render.should_redraw == old(self).render.should_redraw,
            logged(old(self).app, final(self).app, strings_view(lines@)),
            final(self).render.should_quit == old(self).render.should_quit,
            final(self).render.error_message == old(self).render.error_message,
            final(self).render.info_message == old(self).render.info_message,
            final(self).app.symbols@ == old(self).app.symbols@,
            final(self).app.selected_tab == old(self).app.selected_tab,
            final(self).app.notifications@ == old(self).app.notifications@,
            final(self).config == old(self).config,
            final(self).refresh_interval_ms == old(self).refresh_interval_ms,
            final(self).session_stats == old(self).session_stats,
    {
        let mut rest = messages;
        let ghost all = rest@;
        let ghost pre = self.render.pending_messages@;
        let ghost mut k: int = 0;
        while rest.len() > 0
            invariant
                0 <= k <= all.len(),
                rest@ == all.subrange(k, all.len() as int),
                self.render.pending_messages@ == pre + all.subrange(0, k),
                k > 0 ==> self.render.should_redraw,
                k == 0 ==> self.render.should_redraw == old(self).render.should_redraw,
                pre == old(self).render.pending_messages@,
                all == messages@,
                self.render.should_quit == old(self).render.should_quit,
                self.render.error_message == old(self).render.error_message,
                self.render.info_message == old(self).render.info_message,
                self.app == old(self).app,
                self.config == old(self).config,
                self.refresh_interval_ms == old(self).refresh_interval_ms,
                self.session_stats == old(self).session_stats,
            decreases rest@.len(),
        {
            let m = rest.remove(0);
            self.render.queue_message(m);
            proof {
                assert(pre + all.subrange(0, k + 1) =~= (pre + all.subrange(0, k)).push(all[k]));
                k = k + 1;
                assert(rest@ =~= all.subrange(k, all.len() as int));
            }
        }
        proof {
            assert(all.subrange(0, k) =~= all);
            lemma_views_concat(pre, all);
        }
        let ghost app0 = self.app;
        self.app.push_logs(lines);
        proof {
            if lines@.len() > 0 {
                lemma_views_last_n(app0.log_messages@ + lines@, MAX_LOG_MESSAGES as nat);
                lemma_views_concat(app0.log_messages@, lines@);
            }
        }
    }

    /// Takes in a session event (see `event_texts`, `symbols_after` and the
    /// clauses below); the display is always redrawn.
    pub fn handle_event(&mut self, event: UiEvent)
        ensures
            final(self).render.should_redraw,
            strings_view(final(self).render.pending_messages@) == strings_view(old(self).render.pending_messages@)
                + event_texts(old(self).app.symbols@, event).0,
            logged(old(self).app, final(self).app, event_texts(old(self).app.symbols@, event).1),
            symbols_after(old(self).app.symbols@, event, final(self).app.symbols@),
            final(self).app.selected_tab == (if changes_symbols(old(self).app.symbols@, event) {
                normalized_tab(old(self).app.selected_tab, final(self).app.symbols@.len())
            } else {
                old(self).app.selected_tab as int
            }),
            final(self).app.notifications@ == (match event {
                UiEvent::AlertNotification { message } => last_n(
                    old(self).app.notifications@.push(message),
                    MAX_NOTIFICATIONS as nat,
                ),
                _ => old(self).app.notifications@,
            }),
            final(self).render.should_quit == (old(self).render.should_quit || event is ShutdownRequested),
            match event {
                UiEvent::Error { message } => final(self).render.error_message matches Some(m) && m@ == "Error: "@
                    + message@,
                _ => final(self).render.error_message == old(self).render.error_message,
            },
            match info_text(event) {
                Some(t) => final(self).render.info_message matches Some(m) && m@ == t,
                None => final(self).render.info_message == old(self).render.info_message,
            },
            match event {
                UiEvent::ConfigInfo { config } => final(self).config == config && final(self).refresh_interval_ms == (
                if config.refresh_rate_ms >= MIN_REFRESH_INTERVAL_MS {
                    config.refresh_rate_ms
                } else {
                    MIN_REFRESH_INTERVAL_MS
                }),
                UiEvent::ConfigReset => is_default_config(final(self).config) && final(self).refresh_interval_ms
                    == 100,
                _ => final(self).config == old(self).config && final(self).refresh_interval_ms == old(
                    self,
                ).refresh_interval_ms,
            },
            match event {
                UiEvent::StatusInfo { info } => final(self).session_stats == info.session_stats,
                _ => final(self).session_stats == old(self).session_stats,
            },
    {
        self.render.should_redraw = true;
        match event {
            UiEvent::ShutdownRequested => {
                self.render.should_quit = true;
                self.announce(
                    one(String::from_str("Shutdown requested. Exiting interactive session...")),
                    one(String::from_str("Shutdown requested by session manager")),
                );
            },
            UiEvent::Error { message } => {
                let mut text = String::from_str("Error: ");
                text.append(message.as_str());
                self.render.error_message = Some(text.clone());
                let log = text.clone();
                self.announce(one(text), one(log));
            },
            UiEvent::SubscriptionAdded { symbol } => {
                let mut text = String::from_str("Subscribed to ");
                text.append(symbol.as_str());
                let added = self.app.add_symbol(symbol);
                if added {
                    let log = text.clone();
                    self.announce(one(text), one(log));
                }
            },
            UiEvent::SubscriptionRemoved { symbol } => {
                let mut text = String::from_str("Unsubscribed from ");
                text.append(symbol.as_str());
                self.app.remove_symbol(symbol.as_str());
                let log = text.clone();
                self.announce(one(text), one(log));
            },
            UiEvent::SubscriptionList { symbols } => {
                let joined_text = join_strings(&symbols, ", ");
                let mut shown = String::from_str("Active subscriptions: ");
                if symbols.len() == 0 {
                    shown.append("none");
                } else {
                    shown.append(joined_text.as_str());
                }
                let mut log = String::from_str("Active subscriptions: ");
                log.append(joined_text.as_str());
                self.app.set_symbols(symbols);
                self.announce(one(shown), one(log));
            },
            UiEvent::StatusInfo { info } => {
                let mut text = String::from_str("Status → Version ");
                text.append(info.version.as_str());
                text.append(" | State ");
                text.append(info.state.as_str());
                text.append(" | Subscriptions ");
                let n = format_u64(info.active_subscriptions as u64);
                text.append(n.as_str());
                self.render.info_message = Some(text.clone());
                let mut log = String::from_str("Session status updated: ");
                log.append(n.as_str());
                log.append(" symbols active");
                self.session_stats = info.session_stats;
                self.app.set_symbols(info.symbols);
                self.announce(one(text), one(log));
            },
            UiEvent::UiModeChanged { enable_tui } => {
                let mut text = String::from_str("UI mode changed: TUI ");
                text.append(bool_string(enable_tui).as_str());
                let log = text.clone();
                self.announce(one(text), one(log));
            },
            UiEvent::ConfigInfo { config } => {
                let mut text = String::from_str("Config updated → refresh ");
                text.append(format_u64(config.refresh_rate_ms).as_str());
                text.append("ms, depth ");
                text.append(format_u64(config.orderbook_depth as u64).as_str());
                self.refresh_interval_ms = if config.refresh_rate_ms >= MIN_REFRESH_INTERVAL_MS {
                    config.refresh_rate_ms
                } else {
                    MIN_REFRESH_INTERVAL_MS
                };
                self.config = config;
                self.render.info_message = Some(text.clone());
                self.announce(one(text), one(String::from_str("Configuration updated")));
            },
            UiEvent::ConfigReset => {
                self.config = Config::default();
                self.refresh_interval_ms = if self.config.refresh_rate_ms >= MIN_REFRESH_INTERVAL_MS {
                    self.config.refresh_rate_ms
                } else {
                    MIN_REFRESH_INTERVAL_MS
                };
                let text = String::from_str("Configuration reset to defaults");
                self.render.info_message = Some(text.clone());
                let log = text.clone();
                self.announce(one(text), one(log));
            },
            UiEvent::ConfigHelp => {
                self.announce(
                    one(String::from_str("Config commands: /config show | /config set <key> <value> | /config reset")),
                    one(String::from_str("Displayed config help")),
                );
            },
            UiEvent::HelpInfo { lines } => {
                let messages = if lines.len() > 0 {
                    one(String::from_str("Help commands listed in log panel (use Up/Down to scroll)"))
                } else {
                    Vec::new()
                };
                let logs = prefix_all(&lines, "[help] ");
                self.announce(messages, logs);
            },
            UiEvent::LogsInfo { info } => {
                let joined_text = join_strings(&info.recent_logs, ", ");
                let mut text = String::from_str("Recent logs (");
                text.append(info.log_level.as_str());
                text.append("): ");
                text.append(joined_text.as_str());
                self.render.info_message = Some(text.clone());
                let logs = copy_all(&info.recent_logs);
                self.announce(one(text), logs);
            },
            UiEvent::AlertNotification { message } => {
                let shown = message.clone();
                let mut log = String::from_str("[alert] ");
                log.append(message.as_str());
                self.announce(one(shown), one(log));
                self.app.push_notification(message);
            },
            UiEvent::AlertList { entries } => {
                if entries.len() == 0 {
                    self.announce(
                        one(String::from_str("No alerts configured")),
                        one(String::from_str("[alert] No alerts configured")),
                    );
                } else {
                    let logs = prefix_all(&entries, "[alert] ");
                    self.announce(one(String::from_str("Alerts listed in log panel")), logs);
                }
            },
        }
    }
}

} // verus!
