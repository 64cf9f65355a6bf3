//! Interactive display state: symbol tabs, the log and notification panels,
//! the command line, and the candle chart cache.

use vstd::prelude::*;
use vstd::string::*;
use std::collections::VecDeque;
use crate::logbuf::last_n;
use crate::text::strings_view;
use crate::text::str_eq;
use crate::candles::{DailyCandle, DEFAULT_DAILY_CANDLE_LIMIT, index_of_open, lemma_index_of_open};
use crate::orderbook::OrderBook;
use crate::metrics::sat_sub;

verus! {

/// Log lines kept for the log panel.
pub const MAX_LOG_MESSAGES: usize = 200;

/// Notifications kept for the notification panel.
pub const MAX_NOTIFICATIONS: usize = 50;

/// Where typed keys go.
#[derive(Debug, Clone, Copy, PartialEq, Eq, Structural)]
pub enum InputMode {
    Normal,
    Command,
}

impl Default for InputMode {
    fn default() -> (r: Self)
        ensures
            r == InputMode::Normal,
    {
        InputMode::Normal
    }
}

/// Index of the first text equal to `t`, if any.
pub open spec fn first_index_of(s: Seq<String>, t: Seq<char>) -> Option<int>
    decreases s.len(),
{
    if s.len() == 0 {
        None
    } else {
        match first_index_of(s.drop_last(), t) {
            Some(i) => Some(i),
            None => if s.last()@ == t {
                Some(s.len() - 1)
            } else {
                None
            },
        }
    }
}

pub proof fn lemma_first_index_of(s: Seq<String>, t: Seq<char>)
    ensures
        first_index_of(s, t) matches Some(i) ==> 0 <= i < s.len() && s[i]@ == t && forall|j: int|
            0 <= j < i ==> #[trigger] s[j]@ != t,
        first_index_of(s, t) is None ==> forall|j: int| 0 <= j < s.len() ==> #[trigger] s[j]@ != t,
    decreases s.len(),
{
    if s.len() > 0 {
        lemma_first_index_of(s.drop_last(), t);
        assert forall|j: int| 0 <= j < s.len() - 1 implies #[trigger] s[j] == s.drop_last()[j] by {}
    }
}

/// Display state of the interactive session.
#[derive(Debug)]
pub struct AppState {
    pub should_quit: bool,
    pub selected_tab: usize,
    pub symbols: Vec<String>,
    pub paused: bool,
    pub log_messages: VecDeque<String>,
    pub log_scroll_offset: usize,
    pub notifications: VecDeque<String>,
    pub command_buffer: String,
    pub input_mode: InputMode,
}

impl AppState {
    /// A fresh state showing the given symbols, first tab selected.
    pub fn new(symbols: Vec<String>) -> (r: Self)
        ensures
            !r.should_quit,
            r.selected_tab == 0,
            r.symbols@ == symbols@,
            !r.paused,
            r.log_messages@.len() == 0,
            r.log_scroll_offset == 0,
            r.notifications@.len() == 0,
            r.command_buffer@.len() == 0,
            r.input_mode == InputMode::Normal,
    {
        AppState {
            should_quit: false,
            selected_tab: 0,
            symbols,
            paused: false,
            log_messages: VecDeque::with_capacity(128),
            log_scroll_offset: 0,
            notifications: VecDeque::with_capacity(64),
            command_buffer: String::new(),
            input_mode: InputMode::Normal,
        }
    }

    /// Moves to the next tab, wrapping around to the first.
    pub fn next_tab(&mut self)
        requires
            old(self).selected_tab < usize::MAX,
        ensures
            final(self).selected_tab == (if old(self).symbols@.len() == 0 {
                old(self).selected_tab as int
            } else {
                (old(self).selected_tab + 1) % (old(self).symbols@.len() as int)
            }),
            final(self).symbols@ == old(self).symbols@,
            final(self).log_messages@ == old(self).log_messages@,
            final(self).log_scroll_offset == old(self).log_scroll_offset,
            final(self).paused == old(self).paused,
    {
        if self.symbols.len() > 0 {
            self.selected_tab = (self.selected_tab + 1) % self.symbols.len();
        }
    }

    /// Moves to the previous tab, wrapping around to the last.
    pub fn previous_tab(&mut self)
        ensures
            final(self).selected_tab == (if old(self).symbols@.len() == 0 {
                old(self).selected_tab as int
            } else if old(self).selected_tab == 0 {
                old(self).symbols@.len() - 1
            } else {
                old(self).selected_tab - 1
            }),
            final(self).symbols@ == old(self).symbols@,
            final(self).log_messages@ == old(self).log_messages@,
            final(self).log_scroll_offset == old(self).log_scroll_offset,
            final(self).paused == old(self).paused,
    {
        if self.symbols.len() > 0 {
            self.selected_tab = if self.selected_tab == 0 {
                self.symbols.len() - 1
            } else {
                self.selected_tab - 1
            };
        }
    }

    /// The symbol of the selected tab, if the tab exists.
    pub fn current_symbol(&self) -> (r: Option<&String>)
        ensures
            r == (if self.selected_tab < self.symbols@.len() {
                Some(&self.symbols@[self.selected_tab as int])
            } else {
                None
            }),
    {
        if self.selected_tab < self.symbols.len() {
            Some(&self.symbols[self.selected_tab])
        } else {
            None
        }
    }

    /// Pauses or resumes the display.
    pub fn toggle_pause(&mut self)
        ensures
            final(self).paused == !old(self).paused,
            final(self).selected_tab == old(self).selected_tab,
            final(self).symbols@ == old(self).symbols@,
            final(self).should_quit == old(self).should_quit,
    {
        self.paused = !self.paused;
    }

    /// Selects the first tab showing `symbol`; nothing changes when no tab does.
    pub fn focus_symbol(&mut self, symbol: &str)
        ensures
            final(self).selected_tab == (match first_index_of(old(self).symbols@, symbol@) {
                Some(i) => i,
                None => old(self).selected_tab as int,
            }),
            final(self).symbols@ == old(self).symbols@,
            final(self).paused == old(self).paused,
    {
        let mut i: usize = 0;
        while i < self.symbols.len()
            invariant
                i <= self.symbols@.len(),
                self.symbols@ == old(self).symbols@,
                self.selected_tab == old(self).selected_tab,
                self.paused == old(self).paused,
                first_index_of(self.symbols@.subrange(0, i as int), symbol@) is None,
            decreases self.symbols@.len() - i,
        {
            proof {
                assert(self.symbols@.subrange(0, i + 1).drop_last() =~= self.symbols@.subrange(0, i as int));
            }
            if str_eq(self.symbols[i].as_str(), symbol) {
                proof {
                    lemma_first_index_prefix(self.symbols@, i as int, symbol@);
                }
                self.selected_tab = i;
                return;
            }
            i = i + 1;
        }
        proof {
            assert(self.symbols@.subrange(0, self.symbols@.len() as int) =~= self.symbols@);
        }
    }

    /// Keeps the selected tab within the symbol list.
    pub fn normalize_selected_tab(&mut self)
        ensures
            final(self).selected_tab == (if old(self).symbols@.len() == 0 {
                0
            } else if old(self).selected_tab >= old(self).symbols@.len() {
                old(self).symbols@.len() - 1
            } else {
                old(self).selected_tab as int
            }),
            final(self).symbols@ == old(self).symbols@,
            final(self).log_messages@ == old(self).log_messages@,
            final(self).log_scroll_offset == old(self).log_scroll_offset,
            final(self).notifications@ == old(self).notifications@,
    {
        if self.symbols.len() == 0 {
            self.selected_tab = 0;
            return;
        }
        if self.selected_tab >= self.symbols.len() {
            self.selected_tab = self.symbols.len() - 1;
        }
    }

    /// Appends a log line, keeping the newest `MAX_LOG_MESSAGES`; a scrolled
    /// view stays within the log.
    pub fn push_log(&mut self, message: String)
        ensures
            final(self).log_messages@ == last_n(old(self).log_messages@.push(message), MAX_LOG_MESSAGES as nat),
            final(self).log_scroll_offset == (if old(self).log_scroll_offset > 0 {
                min_int(final(self).log_messages@.len() - 1, old(self).log_scroll_offset as int)
            } else {
                0
            }),
            final(self).symbols@ == old(self).symbols@,
            final(self).selected_tab == old(self).selected_tab,
            final(self).notifications@ == old(self).notifications@,
            final(self).paused == old(self).paused,
            final(self).should_quit == old(self).should_quit,
            final(self).input_mode == old(self).input_mode,
            final(self).command_buffer@ == old(self).command_buffer@,
    {
        let ghost full = self.log_messages@.push(message);
        self.log_messages.push_back(message);
        let ghost mut dropped: int = 0;
        while self.log_messages.len() > MAX_LOG_MESSAGES
            invariant
                0 <= dropped <= full.len(),
                self.log_messages@ == full.subrange(dropped, full.len() as int),
                dropped > 0 ==> full.len() - dropped >= MAX_LOG_MESSAGES,
                full == old(self).log_messages@.push(message),
                self.log_scroll_offset == old(self).log_scroll_offset,
                self.symbols@ == old(self).symbols@,
                self.selected_tab == old(self).selected_tab,
                self.notifications@ == old(self).notifications@,
                self.paused == old(self).paused,
                self.should_quit == old(self).should_quit,
                self.input_mode == old(self).input_mode,
                self.command_buffer@ == old(self).command_buffer@,
            decreases self.log_messages@.len(),
        {
            self.log_messages.pop_front();
            proof {
                dropped = dropped + 1;
            }
        }
        proof {
            if full.len() > MAX_LOG_MESSAGES {
                assert(dropped == full.len() - MAX_LOG_MESSAGES);
            } else {
                assert(dropped == 0);
                assert(full.subrange(0, full.len() as int) =~= full);
            }
        }
        if self.log_scroll_offset > 0 {
            let last = self.log_messages.len() - 1;
            self.log_scroll_offset = if last < self.log_scroll_offset {
                last
            } else {
                self.log_scroll_offset
            };
        }
    }

    /// Appends a notification, keeping the newest `MAX_NOTIFICATIONS`.
    pub fn push_notification(&mut self, message: String)
        ensures
            final(self).notifications@ == last_n(old(self).notifications@.push(message), MAX_NOTIFICATIONS as nat),
            final(self).log_messages@ == old(self).log_messages@,
            final(self).log_scroll_offset == old(self).log_scroll_offset,
            final(self).symbols@ == old(self).symbols@,
            final(self).selected_tab == old(self).selected_tab,
            final(self).paused == old(self).paused,
            final(self).should_quit == old(self).should_quit,
    {
        let ghost full = self.notifications@.push(message);
        self.notifications.push_back(message);
        let ghost mut dropped: int = 0;
        while self.notifications.len() > MAX_NOTIFICATIONS
            invariant
                0 <= dropped <= full.len(),
                self.notifications@ == full.subrange(dropped, full.len() as int),
                dropped > 0 ==> full.len() - dropped >= MAX_NOTIFICATIONS,
                full == old(self).notifications@.push(message),
                self.log_messages@ == old(self).log_messages@,
                self.log_scroll_offset == old(self).log_scroll_offset,
                self.symbols@ == old(self).symbols@,
                self.selected_tab == old(self).selected_tab,
                self.paused == old(self).paused,
                self.should_quit == old(self).should_quit,
            decreases self.notifications@.len(),
        {
            self.notifications.pop_front();
            proof {
                dropped = dropped + 1;
            }
        }
        proof {
            if full.len() <= MAX_NOTIFICATIONS {
                assert(full.subrange(0, full.len() as int) =~= full);
            }
        }
    }

    /// Empties the command line.
    pub fn clear_command(&mut self)
        ensures
            final(self).command_buffer@.len() == 0,
            final(self).input_mode == old(self).input_mode,
            final(self).symbols@ == old(self).symbols@,
            final(self).selected_tab == old(self).selected_tab,
    {
        self.command_buffer = String::new();
    }

    /// Scrolls the log panel one line toward older lines, while older lines exist.
    pub fn scroll_logs_up(&mut self)
        ensures
            final(self).log_scroll_offset == (if old(self).log_scroll_offset + 1 < old(self).log_messages@.len() {
                old(self).log_scroll_offset + 1
            } else {
                old(self).log_scroll_offset as int
            }),
            final(self).log_messages@ == old(self).log_messages@,
    {
        let len = self.log_messages.len();
        if len > 0 && self.log_scroll_offset < len - 1 {
            self.log_scroll_offset = self.log_scroll_offset + 1;
        }
    }

    /// Scrolls the log panel one line toward the newest line.
    pub fn scroll_logs_down(&mut self)
        ensures
            final(self).log_scroll_offset == (if old(self).log_scroll_offset > 0 {
                old(self).log_scroll_offset - 1
            } else {
                0
            }),
            final(self).log_messages@ == old(self).log_messages@,
    {
        if self.log_scroll_offset > 0 {
            self.log_scroll_offset = self.log_scroll_offset - 1;
        }
    }

    /// Shows the newest log lines again.
    pub fn reset_log_scroll(&mut self)
        ensures
            final(self).log_scroll_offset == 0,
            final(self).log_messages@ == old(self).log_messages@,
    {
        self.log_scroll_offset = 0;
    }
}

/// The tab index kept within a list of `len` symbols.
pub open spec fn normalized_tab(tab: usize, len: nat) -> int {
    if len == 0 {
        0
    } else if tab >= len {
        len - 1
    } else {
        tab as int
    }
}

/// The texts other than `symbol`, in order.
pub open spec fn without_symbol(s: Seq<Seq<char>>, symbol: Seq<char>) -> Seq<Seq<char>> {
    s.filter(|x: Seq<char>| x != symbol)
}

impl AppState {
    /// Adds a tab for `symbol` unless one exists; tells whether it was added.
    pub fn add_symbol(&mut self, symbol: String) -> (added: bool)
        ensures
            added == (first_index_of(old(self).symbols@, symbol@) is None),
            added ==> final(self).symbols@ == old(self).symbols@.push(symbol),
            !added ==> final(self).symbols@ == old(self).symbols@,
            added ==> final(self).selected_tab == normalized_tab(old(self).selected_tab, final(self).symbols@.len()),
            !added ==> final(self).selected_tab == old(self).selected_tab,
            final(self).log_messages@ == old(self).log_messages@,
            final(self).log_scroll_offset == old(self).log_scroll_offset,
            final(self).notifications@ == old(self).notifications@,
    {
        let mut i: usize = 0;
        while i < self.symbols.len()
            invariant
                i <= self.symbols@.len(),
                self.symbols@ == old(self).symbols@,
                self.selected_tab == old(self).selected_tab,
                self.log_messages@ == old(self).log_messages@,
                self.log_scroll_offset == old(self).log_scroll_offset,
                self.notifications@ == old(self).notifications@,
                first_index_of(self.symbols@.subrange(0, i as int), symbol@) is None,
            decreases self.symbols@.len() - i,
        {
            proof {
                assert(self.symbols@.subrange(0, i + 1).drop_last() =~= self.symbols@.subrange(0, i as int));
            }
            if str_eq(self.symbols[i].as_str(), symbol.as_str()) {
                proof {
                    lemma_first_index_prefix(self.symbols@, i as int, symbol@);
                }
                return false;
            }
            i = i + 1;
        }
        proof {
            assert(self.symbols@.subrange(0, self.symbols@.len() as int) =~= self.symbols@);
        }
        self.symbols.push(symbol);
        self.normalize_selected_tab();
        true
    }

    /// Removes every tab showing `symbol`.
    pub fn remove_symbol(&mut self, symbol: &str)
        ensures
            strings_view(final(self).symbols@) == without_symbol(strings_view(old(self).symbols@), symbol@),
            final(self).selected_tab == normalized_tab(old(self).selected_tab, final(self).symbols@.len()),
            final(self).log_messages@ == old(self).log_messages@,
            final(self).log_scroll_offset == old(self).log_scroll_offset,
            final(self).notifications@ == old(self).notifications@,
    {
        let mut kept: Vec<String> = Vec::new();
        let mut old_symbols: Vec<String> = Vec::new();
        std::mem::swap(&mut old_symbols, &mut self.symbols);
        let ghost s = old_symbols@;
        let mut i: usize = 0;
        while i < old_symbols.len()
            invariant
                i <= old_symbols@.len(),
                old_symbols@ == s,
                s == old(self).symbols@,
                strings_view(kept@) == without_symbol(strings_view(s.subrange(0, i as int)), symbol@),
                self.selected_tab == old(self).selected_tab,
                self.log_messages@ == old(self).log_messages@,
                self.log_scroll_offset == old(self).log_scroll_offset,
                self.notifications@ == old(self).notifications@,
            decreases old_symbols@.len() - i,
        {
            let ghost k0 = kept@;
            proof {
                reveal_with_fuel(Seq::filter, 2);
                let p = |x: Seq<char>| x != symbol@;
                let a = strings_view(s.subrange(0, i as int));
                let b = seq![s[i as int]@];
                assert(strings_view(s.subrange(0, i + 1)) =~= a + b);
                Seq::filter_distributes_over_add(a, b, p);
                assert(b.filter(p) == (if s[i as int]@ != symbol@ { b } else { Seq::<Seq<char>>::empty() }));
            }
            if !str_eq(old_symbols[i].as_str(), symbol) {
                kept.push(old_symbols[i].clone());
                proof {
                    assert(strings_view(kept@) =~= strings_view(k0).push(s[i as int]@));
                }
            }
            i = i + 1;
        }
        proof {
            assert(s.subrange(0, s.len() as int) =~= s);
        }
        self.symbols = kept;
        self.normalize_selected_tab();
    }

    /// Replaces the tabs with `symbols`.
    pub fn set_symbols(&mut self, symbols: Vec<String>)
        ensures
            final(self).symbols@ == symbols@,
            final(self).selected_tab == normalized_tab(old(self).selected_tab, symbols@.len()),
            final(self).log_messages@ == old(self).log_messages@,
            final(self).log_scroll_offset == old(self).log_scroll_offset,
            final(self).notifications@ == old(self).notifications@,
    {
        self.symbols = symbols;
        self.normalize_selected_tab();
    }
}

/// The scroll offset after log lines arrive: a scrolled view is kept within
/// the log as it stands after the first new line.
pub open spec fn offset_after_logs(offset: usize, old_len: nat, added: nat) -> int {
    if offset > 0 && added > 0 {
        let first_len: int = if old_len + 1 <= MAX_LOG_MESSAGES { (old_len + 1) as int } else { MAX_LOG_MESSAGES as int };
        min_int(first_len - 1, offset as int)
    } else {
        offset as int
    }
}

proof fn lemma_last_n_push<A>(s: Seq<A>, x: A, n: nat)
    requires
        n > 0,
    ensures
        last_n(last_n(s, n).push(x), n) == last_n(s.push(x), n),
{
    if s.len() > n {
        assert(last_n(last_n(s, n).push(x), n) =~= last_n(s.push(x), n));
    }
}

impl AppState {
    /// Appends log lines in order (see `push_log`).
    pub fn push_logs(&mut self, lines: Vec<String>)
        ensures
            lines@.len() > 0 ==> final(self).log_messages@ == last_n(
                old(self).log_messages@ + lines@,
                MAX_LOG_MESSAGES as nat,
            ),
            lines@.len() == 0 ==> final(self).log_messages@ == old(self).log_messages@,
            final(self).log_scroll_offset == offset_after_logs(
                old(self).log_scroll_offset,
                old(self).log_messages@.len(),
                lines@.len(),
            ),
            final(self).symbols@ == old(self).symbols@,
            final(self).selected_tab == old(self).selected_tab,
            final(self).notifications@ == old(self).notifications@,
            final(self).paused == old(self).paused,
            final(self).should_quit == old(self).should_quit,
            final(self).input_mode == old(self).input_mode,
            final(self).command_buffer@ == old(self).command_buffer@,
    {
        let ghost all = lines@;
        let ghost base = self.log_messages@;
        let ghost off0 = self.log_scroll_offset;
        let mut rest = lines;
        let ghost mut k: int = 0;
        while rest.len() > 0
            invariant
                0 <= k <= all.len(),
                rest@ == all.subrange(k, all.len() as int),
                k > 0 ==> self.log_messages@ == last_n(base + all.subrange(0, k), MAX_LOG_MESSAGES as nat),
                k == 0 ==> self.log_messages@ == base,
                self.log_scroll_offset == offset_after_logs(off0, base.len(), k as nat),
                k > 0 ==> self.log_messages@.len() >= (if base.len() + 1 <= MAX_LOG_MESSAGES {
                    (base.len() + 1) as int
                } else {
                    MAX_LOG_MESSAGES as int
                }),
                base == old(self).log_messages@,
                off0 == old(self).log_scroll_offset,
                all == lines@,
                self.symbols@ == old(self).symbols@,
                self.selected_tab == old(self).selected_tab,
                self.notifications@ == old(self).notifications@,
                self.paused == old(self).paused,
                self.should_quit == old(self).should_quit,
                self.input_mode == old(self).input_mode,
                self.command_buffer@ == old(self).command_buffer@,
            decreases rest@.len(),
        {
            let line = rest.remove(0);
            proof {
                assert(line == all[k]);
                assert(base + all.subrange(0, k + 1) =~= (base + all.subrange(0, k)).push(all[k]));
                if k > 0 {
                    lemma_last_n_push(base + all.subrange(0, k), all[k], MAX_LOG_MESSAGES as nat);
                } else {
                    assert(base + all.subrange(0, k) =~= base);
                }
            }
            self.push_log(line);
            proof {
                k = k + 1;
                assert(rest@ =~= all.subrange(k, all.len() as int));
            }
        }
        proof {
            assert(all.subrange(0, k) =~= all);
        }
    }
}

pub open spec fn min_int(a: int, b: int) -> int {
    if a < b {
        a
    } else {
        b
    }
}

proof fn lemma_first_index_prefix(s: Seq<String>, i: int, t: Seq<char>)
    requires
        0 <= i < s.len(),
        first_index_of(s.subrange(0, i), t) is None,
        s[i]@ == t,
    ensures
        first_index_of(s, t) == Some(i),
    decreases s.len(),
{
    if s.len() == i + 1 {
        assert(s.drop_last() =~= s.subrange(0, i));
    } else {
        assert(s.drop_last().subrange(0, i) =~= s.subrange(0, i));
        lemma_first_index_prefix(s.drop_last(), i, t);
    }
}

/// Rendering bookkeeping of the interactive display.
#[derive(Debug)]
pub struct RenderState {
    pub should_quit: bool,
    pub should_redraw: bool,
    pub last_render_time: u64,
    pub render_count: u64,
    pub error_message: Option<String>,
    pub info_message: Option<String>,
    pub pending_messages: Vec<String>,
}

impl Default for RenderState {
    fn default() -> (r: Self)
        ensures
            !r.should_quit,
            r.should_redraw,
            r.last_render_time == 0,
            r.render_count == 0,
            r.error_message is None,
            r.info_message is None,
            r.pending_messages@.len() == 0,
    {
        RenderState {
            should_quit: false,
            should_redraw: true,
            last_render_time: 0,
            render_count: 0,
            error_message: None,
            info_message: None,
            pending_messages: Vec::new(),
        }
    }
}

impl RenderState {
    /// Queues a message for display and asks for a redraw.
    pub fn queue_message(&mut self, message: String)
        ensures
            final(self).pending_messages@ == old(self).pending_messages@.push(message),
            final(self).should_redraw,
            final(self).should_quit == old(self).should_quit,
            final(self).render_count == old(self).render_count,
            final(self).last_render_time == old(self).last_render_time,
            final(self).error_message == old(self).error_message,
            final(self).info_message == old(self).info_message,
    {
        self.pending_messages.push(message);
        self.should_redraw = true;
    }
}

/// A price sample of the trend chart; price in units of `10^-8`.
#[derive(Debug, Clone, Copy, PartialEq, Eq, Structural)]
pub struct PricePoint {
    pub timestamp_ms: u64,
    pub price: i128,
}

/// A candle as the chart draws it; prices in units of `10^-8`.
#[derive(Debug, Clone, Copy, PartialEq, Eq, Structural)]
pub struct CandleSample {
    pub open_time_ms: u64,
    pub close_time_ms: u64,
    pub open: i128,
    pub high: i128,
    pub low: i128,
    pub close: i128,
    pub is_closed: bool,
}

pub open spec fn sample_of(c: DailyCandle) -> CandleSample {
    CandleSample {
        open_time_ms: c.open_time_ms,
        close_time_ms: c.close_time_ms,
        open: c.open,
        high: c.high,
        low: c.low,
        close: c.close,
        is_closed: c.is_closed,
    }
}

impl CandleSample {
    pub fn from_candle(c: &DailyCandle) -> (r: Self)
        ensures
            r == sample_of(*c),
    {
        CandleSample {
            open_time_ms: c.open_time_ms,
            close_time_ms: c.close_time_ms,
            open: c.open,
            high: c.high,
            low: c.low,
            close: c.close,
            is_closed: c.is_closed,
        }
    }
}

/// The lowest low of a non-empty run of samples.
pub open spec fn min_low(s: Seq<CandleSample>) -> i128
    decreases s.len(),
{
    if s.len() <= 1 {
        s[0].low
    } else {
        let m = min_low(s.drop_last());
        if s.last().low < m {
            s.last().low
        } else {
            m
        }
    }
}

/// The highest high of a non-empty run of samples.
pub open spec fn max_high(s: Seq<CandleSample>) -> i128
    decreases s.len(),
{
    if s.len() <= 1 {
        s[0].high
    } else {
        let m = max_high(s.drop_last());
        if s.last().high > m {
            s.last().high
        } else {
            m
        }
    }
}

/// Time covered by a non-empty run of samples, at least 1 ms.
pub open spec fn span_of(s: Seq<CandleSample>) -> u64 {
    let d = sat_sub(s.last().close_time_ms, s[0].open_time_ms);
    if d >= 1 {
        d
    } else {
        1
    }
}

/// Samples prepared for drawing the candle chart.
#[derive(Debug)]
pub struct KlineRenderCache {
    pub width: u16,
    pub samples: Vec<CandleSample>,
    pub min_price: i128,
    pub max_price: i128,
    pub total_span_ms: u64,
}

/// `c` is the chart cache for `samples` at `width`.
pub open spec fn cache_for(c: KlineRenderCache, width: u16, samples: Seq<CandleSample>) -> bool {
    &&& c.width == width
    &&& c.samples@ == samples
    &&& c.min_price == min_low(samples)
    &&& c.max_price == max_high(samples)
    &&& c.total_span_ms == span_of(samples)
}

impl KlineRenderCache {
    /// The cache for the given samples; none for no samples.
    pub fn from_samples(width: u16, samples: Vec<CandleSample>) -> (r: Option<KlineRenderCache>)
        ensures
            samples@.len() == 0 <==> r is None,
            r matches Some(c) ==> cache_for(c, width, samples@),
    {
        if samples.len() == 0 {
            return None;
        }
        let mut min_price: i128 = samples[0].low;
        let mut max_price: i128 = samples[0].high;
        let mut i: usize = 1;
        while i < samples.len()
            invariant
                1 <= i <= samples@.len(),
                min_price == min_low(samples@.subrange(0, i as int)),
                max_price == max_high(samples@.subrange(0, i as int)),
            decreases samples@.len() - i,
        {
            proof {
                assert(samples@.subrange(0, i + 1).drop_last() =~= samples@.subrange(0, i as int));
            }
            if samples[i].low < min_price {
                min_price = samples[i].low;
            }
            if samples[i].high > max_price {
                max_price = samples[i].high;
            }
            i = i + 1;
        }
        proof {
            assert(samples@.subrange(0, samples@.len() as int) =~= samples@);
        }
        let first_open = samples[0].open_time_ms;
        let last_close = samples[samples.len() - 1].close_time_ms;
        let d = if last_close > first_open { last_close - first_open } else { 0 };
        let total_span_ms = if d >= 1 { d } else { 1 };
        Some(KlineRenderCache { width, samples, min_price, max_price, total_span_ms })
    }
}

/// The samples the chart shows at `width`: the newest `max(1, width / 2)` candles.
pub open spec fn chart_samples(candles: Seq<DailyCandle>, width: u16) -> Seq<CandleSample> {
    let max_candles: int = if width / 2 >= 1 { (width / 2) as int } else { 1 };
    let take: int = if candles.len() < max_candles { candles.len() as int } else { max_candles };
    candles.subrange(candles.len() - take, candles.len() as int).map_values(|c: DailyCandle| sample_of(c))
}

/// The chart cache after a rebuild at `width`.
pub open spec fn rebuilt(cache: Option<KlineRenderCache>, candles: Seq<DailyCandle>, width: u16) -> bool {
    if width < 4 || candles.len() == 0 {
        cache is None
    } else {
        cache matches Some(c) && cache_for(c, width, chart_samples(candles, width))
    }
}

/// Display state of one symbol; prices and volumes in units of `10^-8`.
#[derive(Debug)]
pub struct MarketDataState {
    pub symbol: String,
    pub price: i128,
    pub change_percent: i128,
    pub volume_24h: i128,
    pub high_24h: i128,
    pub low_24h: i128,
    pub orderbook: Option<OrderBook>,
    pub price_history: Vec<PricePoint>,
    pub daily_candles: Vec<DailyCandle>,
    pub kline_render_cache: Option<KlineRenderCache>,
    pub last_kline_refresh: Option<u64>,
}

impl Default for MarketDataState {
    fn default() -> (r: Self)
        ensures
            r.symbol@.len() == 0,
            r.price == 0 && r.change_percent == 0 && r.volume_24h == 0,
            r.high_24h == 0 && r.low_24h == 0,
            r.orderbook is None,
            r.price_history@.len() == 0,
            r.daily_candles@.len() == 0,
            r.kline_render_cache is None,
            r.last_kline_refresh is None,
    {
        MarketDataState {
            symbol: String::new(),
            price: 0,
            change_percent: 0,
            volume_24h: 0,
            high_24h: 0,
            low_24h: 0,
            orderbook: None,
            price_history: Vec::new(),
            daily_candles: Vec::new(),
            kline_render_cache: None,
            last_kline_refresh: None,
        }
    }
}

impl MarketDataState {
    /// Drops the chart cache.
    pub fn invalidate_kline_cache(&mut self)
        ensures
            final(self).kline_render_cache is None,
            final(self).daily_candles@ == old(self).daily_candles@,
            final(self).last_kline_refresh == old(self).last_kline_refresh,
            final(self).price_history@ == old(self).price_history@,
            final(self).price == old(self).price,
    {
        self.kline_render_cache = None;
    }

    /// Rebuilds the chart cache from the newest candles.
    fn rebuild_kline_cache(&mut self, width: u16)
        ensures
            rebuilt(final(self).kline_render_cache, old(self).daily_candles@, width),
            final(self).daily_candles@ == old(self).daily_candles@,
            final(self).last_kline_refresh == old(self).last_kline_refresh,
    {
        if width < 4 || self.daily_candles.len() == 0 {
            self.kline_render_cache = None;
            return;
        }
        let half: usize = (width / 2) as usize;
        let max_candles: usize = if half >= 1 { half } else { 1 };
        let len = self.daily_candles.len();
        let take = if len < max_candles { len } else { max_candles };
        let start = len - take;
        let ghost target = chart_samples(self.daily_candles@, width);
        let mut samples: Vec<CandleSample> = Vec::new();
        let mut i: usize = start;
        while i < len
            invariant
                len == self.daily_candles@.len(),
                start <= i <= len,
                start == len - take,
                take >= 1,
                target == chart_samples(self.daily_candles@, width),
                target.len() == take,
                forall|k: int| 0 <= k < target.len() ==> #[trigger] target[k] == sample_of(self.daily_candles@[start + k]),
                samples@ == target.subrange(0, i - start),
            decreases len - i,
        {
            let s = CandleSample::from_candle(&self.daily_candles[i]);
            samples.push(s);
            proof {
                assert(samples@ =~= target.subrange(0, i + 1 - start));
            }
            i = i + 1;
        }
        proof {
            assert(samples@ =~= target);
        }
        self.kline_render_cache = KlineRenderCache::from_samples(width, samples);
    }

    /// Makes sure the chart cache matches `width`, rebuilding it when it is
    /// missing or was built for another width; none below a width of 4.
    pub fn ensure_kline_cache(&mut self, width: u16) -> (r: Option<&KlineRenderCache>)
        ensures
            width < 4 ==> final(self).kline_render_cache is None,
            width >= 4 && (old(self).kline_render_cache matches Some(c) && c.width == width)
                ==> final(self).kline_render_cache == old(self).kline_render_cache,
            width >= 4 && !(old(self).kline_render_cache matches Some(c) && c.width == width)
                ==> rebuilt(final(self).kline_render_cache, old(self).daily_candles@, width),
            r == (match final(self).kline_render_cache {
                Some(c) => Some(&c),
                None => None,
            }),
            final(self).daily_candles@ == old(self).daily_candles@,
            final(self).last_kline_refresh == old(self).last_kline_refresh,
    {
        if width < 4 {
            self.kline_render_cache = None;
            return None;
        }
        let needs_rebuild = match &self.kline_render_cache {
            Some(cache) => cache.width != width,
            None => true,
        };
        if needs_rebuild {
            self.rebuild_kline_cache(width);
        }
        match &self.kline_render_cache {
            Some(c) => Some(c),
            None => None,
        }
    }

    /// Records a chart refresh when forced or when `interval_ms` has passed
    /// since the last one (times in ms); tells whether a redraw is due.
    pub fn update_kline_refresh(&mut self, now_ms: u64, interval_ms: u64, force: bool) -> (r: bool)
        ensures
            r == (force || match old(self).last_kline_refresh {
                Some(last) => sat_sub(now_ms, last) >= interval_ms,
                None => true,
            }),
            r ==> final(self).last_kline_refresh == Some(now_ms),
            !r ==> final(self).last_kline_refresh == old(self).last_kline_refresh,
            final(self).daily_candles@ == old(self).daily_candles@,
            final(self).kline_render_cache == old(self).kline_render_cache,
    {
        if force {
            self.last_kline_refresh = Some(now_ms);
            return true;
        }
        let due = match self.last_kline_refresh {
            Some(last) => {
                let elapsed = if now_ms > last { now_ms - last } else { 0 };
                elapsed >= interval_ms
            },
            None => true,
        };
        if due {
            self.last_kline_refresh = Some(now_ms);
        }
        due
    }
}

/// A candle put into a series: it replaces the first candle with the same
/// open time, or is appended.
pub open spec fn put_candle(s: Seq<DailyCandle>, c: DailyCandle) -> Seq<DailyCandle> {
    let i = index_of_open(s, c.open_time_ms);
    if i >= 0 {
        s.update(i, c)
    } else {
        s.push(c)
    }
}

/// Putting `c` closes a candle: it is a new closed candle, or a closed
/// candle replacing an open one.
pub open spec fn closes_candle(s: Seq<DailyCandle>, c: DailyCandle) -> bool {
    let i = index_of_open(s, c.open_time_ms);
    if i >= 0 {
        c.is_closed && !s[i].is_closed
    } else {
        c.is_closed
    }
}

/// Candles put into a series one after another.
pub open spec fn put_all(s: Seq<DailyCandle>, cs: Seq<DailyCandle>) -> Seq<DailyCandle>
    decreases cs.len(),
{
    if cs.len() == 0 {
        s
    } else {
        put_candle(put_all(s, cs.drop_last()), cs.last())
    }
}

/// Some candle of `cs` closes a candle when they are put in one after another.
pub open spec fn any_closes(s: Seq<DailyCandle>, cs: Seq<DailyCandle>) -> bool
    decreases cs.len(),
{
    if cs.len() == 0 {
        false
    } else {
        any_closes(s, cs.drop_last()) || closes_candle(put_all(s, cs.drop_last()), cs.last())
    }
}

/// `c` inserted after the trailing candles that open later than it.
pub open spec fn insert_by_open(s: Seq<DailyCandle>, c: DailyCandle) -> Seq<DailyCandle>
    decreases s.len(),
{
    if s.len() == 0 {
        seq![c]
    } else if s.last().open_time_ms <= c.open_time_ms {
        s.push(c)
    } else {
        insert_by_open(s.drop_last(), c).push(s.last())
    }
}

/// The candles ordered by open time; candles with equal open times keep
/// their order.
pub open spec fn sort_by_open(s: Seq<DailyCandle>) -> Seq<DailyCandle>
    decreases s.len(),
{
    if s.len() == 0 {
        s
    } else {
        insert_by_open(sort_by_open(s.drop_last()), s.last())
    }
}

pub open spec fn open_ordered(s: Seq<DailyCandle>) -> bool {
    forall|i: int, j: int| 0 <= i <= j < s.len() ==> s[i].open_time_ms <= s[j].open_time_ms
}

proof fn lemma_insert_at(s: Seq<DailyCandle>, c: DailyCandle, j: int)
    requires
        0 <= j <= s.len(),
        forall|t: int| j <= t < s.len() ==> #[trigger] s[t].open_time_ms > c.open_time_ms,
        j > 0 ==> s[j - 1].open_time_ms <= c.open_time_ms,
    ensures
        insert_by_open(s, c) == s.insert(j, c),
    decreases s.len() - j,
{
    if s.len() == j {
        assert(s.insert(j, c) =~= s.push(c));
    } else {
        let d = s.drop_last();
        assert forall|t: int| j <= t < d.len() implies #[trigger] d[t].open_time_ms > c.open_time_ms by {
            assert(d[t] == s[t]);
        }
        lemma_insert_at(d, c, j);
        assert(s.insert(j, c) =~= d.insert(j, c).push(s.last()));
    }
}

proof fn lemma_insert_ordered(s: Seq<DailyCandle>, c: DailyCandle)
    requires
        open_ordered(s),
    ensures
        open_ordered(insert_by_open(s, c)),
        insert_by_open(s, c).to_multiset() == s.to_multiset().insert(c),
    decreases s.len(),
{
    broadcast use vstd::seq_lib::group_to_multiset_ensures;
    if s.len() == 0 {
        assert(seq![c] =~= Seq::<DailyCandle>::empty().push(c));
    } else if s.last().open_time_ms <= c.open_time_ms {
    } else {
        let d = s.drop_last();
        assert(s =~= d.push(s.last()));
        lemma_insert_ordered(d, c);
        let t = insert_by_open(d, c);
        assert forall|i: int| 0 <= i < t.len() implies #[trigger] t[i].open_time_ms <= s.last().open_time_ms by {
            assert(t.to_multiset().count(t[i]) > 0);
            assert(d.to_multiset().insert(c).count(t[i]) > 0);
            if t[i] != c {
                assert(d.to_multiset().count(t[i]) > 0);
                assert(d.contains(t[i]));
                let k = choose|k: int| 0 <= k < d.len() && d[k] == t[i];
                assert(s[k] == d[k]);
            }
        }
    }
}

pub proof fn lemma_sort_by_open(s: Seq<DailyCandle>)
    ensures
        open_ordered(sort_by_open(s)),
        sort_by_open(s).to_multiset() == s.to_multiset(),
    decreases s.len(),
{
    broadcast use vstd::seq_lib::group_to_multiset_ensures;
    if s.len() > 0 {
        lemma_sort_by_open(s.drop_last());
        lemma_insert_ordered(sort_by_open(s.drop_last()), s.last());
        assert(s =~= s.drop_last().push(s.last()));
    }
}

/// The candles ordered by open time (see `sort_by_open`).
pub fn sort_candles_by_open(v: Vec<DailyCandle>) -> (r: Vec<DailyCandle>)
    ensures
        r@ == sort_by_open(v@),
{
    let mut out: Vec<DailyCandle> = Vec::new();
    let mut i: usize = 0;
    while i < v.len()
        invariant
            i <= v@.len(),
            out@ == sort_by_open(v@.subrange(0, i as int)),
        decreases v@.len() - i,
    {
        let c = v[i];
        let mut j: usize = out.len();
        while j > 0 && out[j - 1].open_time_ms > c.open_time_ms
            invariant
                j <= out@.len(),
                forall|t: int| j <= t < out@.len() ==> #[trigger] out@[t].open_time_ms > c.open_time_ms,
            decreases j,
        {
            j = j - 1;
        }
        proof {
            lemma_insert_at(out@, c, j as int);
            assert(v@.subrange(0, i + 1).drop_last() =~= v@.subrange(0, i as int));
        }
        out.insert(j, c);
        i = i + 1;
    }
    proof {
        assert(v@.subrange(0, v@.len() as int) =~= v@);
    }
    out
}

/// The last `n` candles (all of them when there are fewer).
fn keep_newest(v: Vec<DailyCandle>, n: usize) -> (r: Vec<DailyCandle>)
    ensures
        r@ == last_n(v@, n as nat),
{
    if v.len() <= n {
        return v;
    }
    let start = v.len() - n;
    let mut out: Vec<DailyCandle> = Vec::new();
    let mut i: usize = start;
    while i < v.len()
        invariant
            start <= i <= v@.len(),
            start == v@.len() - n,
            out@ == v@.subrange(start as int, i as int),
        decreases v@.len() - i,
    {
        out.push(v[i]);
        proof {
            assert(out@ =~= v@.subrange(start as int, i + 1));
        }
        i = i + 1;
    }
    out
}

/// Puts one candle into a series (see `put_candle`); tells whether it closes a candle.
fn put_one(series: &mut Vec<DailyCandle>, c: DailyCandle) -> (closed: bool)
    ensures
        final(series)@ == put_candle(old(series)@, c),
        closed == closes_candle(old(series)@, c),
{
    let ghost s = series@;
    let mut i: usize = 0;
    while i < series.len()
        invariant
            i <= series@.len(),
            series@ == s,
            s == old(series)@,
            index_of_open(s.subrange(0, i as int), c.open_time_ms) == -1,
        decreases series@.len() - i,
    {
        proof {
            assert(s.subrange(0, i + 1).drop_last() =~= s.subrange(0, i as int));
        }
        if series[i].open_time_ms == c.open_time_ms {
            proof {
                lemma_open_prefix(s, i as int, c.open_time_ms);
            }
            let closed = c.is_closed && !series[i].is_closed;
            series.set(i, c);
            return closed;
        }
        i = i + 1;
    }
    proof {
        assert(s.subrange(0, s.len() as int) =~= s);
    }
    series.push(c);
    c.is_closed
}

proof fn lemma_open_prefix(s: Seq<DailyCandle>, i: int, t: u64)
    requires
        0 <= i < s.len(),
        index_of_open(s.subrange(0, i), t) == -1,
        s[i].open_time_ms == t,
    ensures
        index_of_open(s, t) == i,
    decreases s.len(),
{
    if s.len() == i + 1 {
        assert(s.drop_last() =~= s.subrange(0, i));
    } else {
        assert(s.drop_last().subrange(0, i) =~= s.subrange(0, i));
        lemma_open_prefix(s.drop_last(), i, t);
    }
}

impl MarketDataState {
    /// Takes in daily candles: a snapshot replaces the series, an update puts
    /// each candle in (see `put_candle`); the newest `DEFAULT_DAILY_CANDLE_LIMIT`
    /// are kept, ordered by open time, and the chart cache is dropped. Tells
    /// whether the chart must be refreshed now: always for a snapshot, and for
    /// an update that closes a candle.
    pub fn apply_daily_candles(&mut self, candles: Vec<DailyCandle>, is_snapshot: bool) -> (force: bool)
        ensures
            is_snapshot ==> final(self).daily_candles@ == sort_by_open(
                last_n(candles@, DEFAULT_DAILY_CANDLE_LIMIT as nat),
            ),
            !is_snapshot ==> final(self).daily_candles@ == sort_by_open(
                last_n(put_all(old(self).daily_candles@, candles@), DEFAULT_DAILY_CANDLE_LIMIT as nat),
            ),
            force == (is_snapshot || any_closes(old(self).daily_candles@, candles@)),
            final(self).kline_render_cache is None,
            final(self).last_kline_refresh == old(self).last_kline_refresh,
            final(self).price == old(self).price,
            final(self).price_history@ == old(self).price_history@,
            final(self).symbol@ == old(self).symbol@,
    {
        let mut force = false;
        if is_snapshot {
            let kept = keep_newest(candles, DEFAULT_DAILY_CANDLE_LIMIT);
            self.daily_candles = sort_candles_by_open(kept);
            force = true;
        } else {
            let mut series = Vec::new();
            std::mem::swap(&mut series, &mut self.daily_candles);
            let ghost s0 = series@;
            let mut i: usize = 0;
            while i < candles.len()
                invariant
                    i <= candles@.len(),
                    s0 == old(self).daily_candles@,
                    series@ == put_all(s0, candles@.subrange(0, i as int)),
                    force == any_closes(s0, candles@.subrange(0, i as int)),
                decreases candles@.len() - i,
            {
                proof {
                    assert(candles@.subrange(0, i + 1).drop_last() =~= candles@.subrange(0, i as int));
                }
                let closed = put_one(&mut series, candles[i]);
                force = force || closed;
                i = i + 1;
            }
            proof {
                assert(candles@.subrange(0, candles@.len() as int) =~= candles@);
            }
            let kept = keep_newest(series, DEFAULT_DAILY_CANDLE_LIMIT);
            self.daily_candles = sort_candles_by_open(kept);
        }
        self.kline_render_cache = None;
        force
    }

    /// Takes in a trade price: the price is shown and sampled for the trend
    /// chart, which keeps the newest `max(2, max_points)` samples.
    pub fn record_price(&mut self, price: i128, time_ms: u64, max_points: usize)
        ensures
            final(self).price == price,
            final(self).price_history@ == last_n(
                old(self).price_history@.push(PricePoint { timestamp_ms: time_ms, price }),
                (if max_points >= 2 { max_points } else { 2 }) as nat,
            ),
            final(self).daily_candles@ == old(self).daily_candles@,
            final(self).symbol@ == old(self).symbol@,
    {
        self.price = price;
        self.price_history.push(PricePoint { timestamp_ms: time_ms, price });
        let keep: usize = if max_points >= 2 { max_points } else { 2 };
        if self.price_history.len() > keep {
            let start = self.price_history.len() - keep;
            let mut out: Vec<PricePoint> = Vec::new();
            let mut i: usize = start;
            while i < self.price_history.len()
                invariant
                    start <= i <= self.price_history@.len(),
                    start == self.price_history@.len() - keep,
                    out@ == self.price_history@.subrange(start as int, i as int),
                decreases self.price_history@.len() - i,
            {
                out.push(self.price_history[i]);
                proof {
                    assert(out@ =~= self.price_history@.subrange(start as int, i + 1));
                }
                i = i + 1;
            }
            self.price_history = out;
        }
    }

    /// Takes in 24-hour ticker figures.
    pub fn apply_ticker(&mut self, last_price: i128, change_percent: i128, high: i128, low: i128, volume: i128)
        ensures
            final(self).price == last_price,
            final(self).change_percent == change_percent,
            final(self).high_24h == high,
            final(self).low_24h == low,
            final(self).volume_24h == volume,
            final(self).price_history@ == old(self).price_history@,
            final(self).daily_candles@ == old(self).daily_candles@,
            final(self).symbol@ == old(self).symbol@,
    {
        self.price = last_price;
        self.change_percent = change_percent;
        self.volume_24h = volume;
        self.high_24h = high;
        self.low_24h = low;
    }
}

} // verus!
