//! Latency and message-rate metrics of a market data connection. Times are
//! milliseconds since the Unix epoch; each operation that reads the clock
//! has a twin ending in `_at` that takes the time as an argument.

use vstd::prelude::*;
use crate::clock::now_ms;
use crate::feed::MarketEvent;

verus! {

broadcast use vstd::seq_lib::group_to_multiset_ensures;

/// How far back message times are kept for the rate estimate, in
/// milliseconds: one minute.
pub const RATE_WINDOW_MS: u64 = 60_000;

/// `h` without its leading times that come before `cutoff`.
pub open spec fn prune_front(h: Seq<u64>, cutoff: u64) -> Seq<u64>
    decreases h.len(),
{
    if h.len() > 0 && h[0] < cutoff {
        prune_front(h.drop_first(), cutoff)
    } else {
        h
    }
}

/// State of a connection as the metrics report it.
#[derive(Debug, Clone, PartialEq, Eq)]
pub enum ConnectionStatus {
    Disconnected,
    Connecting,
    Connected,
    Reconnecting,
    Error(String),
}

/// Connection quality grades.
#[derive(Debug, Clone, Copy, PartialEq, Eq, Structural)]
pub enum ConnectionQualityLevel {
    /// Under 100 ms median latency and over 1000 messages a second
    Excellent,
    /// Under 500 ms and over 500 messages a second
    Good,
    /// Under 1000 ms and over 100 messages a second
    Fair,
    /// Anything slower
    Poor,
    /// No message for over 30 seconds
    Critical,
}

/// `a - b`, or 0 when `b` is larger.
pub open spec fn sat_sub(a: u64, b: u64) -> u64 {
    if a >= b { (a - b) as u64 } else { 0 }
}

pub open spec fn ascending(s: Seq<u64>) -> bool {
    forall|i: int, j: int| 0 <= i <= j < s.len() ==> s[i] <= s[j]
}

/// The three latency percentiles (p50, p95, p99) read off an ascending
/// run: the elements at `len * q / 100`, the last two capped at the end;
/// all zero for no samples.
pub open spec fn percentiles_of(t: Seq<u64>) -> (u64, u64, u64) {
    let n = t.len() as int;
    if n == 0 {
        (0, 0, 0)
    } else {
        let i95 = if n * 95 / 100 < n - 1 { n * 95 / 100 } else { n - 1 };
        let i99 = if n * 99 / 100 < n - 1 { n * 99 / 100 } else { n - 1 };
        (t[n * 50 / 100], t[i95], t[i99])
    }
}

/// The percentiles of ascending samples are ordered: p50 <= p95 <= p99.
pub proof fn lemma_percentiles_ordered(t: Seq<u64>)
    requires
        ascending(t),
    ensures
        percentiles_of(t).0 <= percentiles_of(t).1 <= percentiles_of(t).2,
{
    let n = t.len() as int;
    if n > 0 {
        assert(n * 50 / 100 <= n * 95 / 100) by (nonlinear_arith)
            requires
                n > 0,
        ;
        assert(n * 95 / 100 <= n * 99 / 100) by (nonlinear_arith)
            requires
                n > 0,
        ;
        assert(n * 50 / 100 < n) by (nonlinear_arith)
            requires
                n > 0,
        ;
    }
}

/// The latency samples after one more latency `l`, keeping at most `m`
/// (the oldest dropped first).
pub open spec fn sample_step(w: Seq<u64>, l: u64, m: nat) -> Seq<u64> {
    (if w.len() >= m {
        w.drop_first()
    } else {
        w
    }).push(l)
}

/// The samples kept after recording the latencies `ls`, in order, from none.
pub open spec fn samples_after(ls: Seq<u64>, m: nat) -> Seq<u64>
    decreases ls.len(),
{
    if ls.len() == 0 {
        Seq::empty()
    } else {
        sample_step(samples_after(ls.drop_last(), m), ls.last(), m)
    }
}

/// After `k` recordings from none, the samples are the last `min(k, m)`
/// latencies, in recording order; the percentiles are then read off their
/// ascending arrangement (see `MetricsCollector::calculate_percentiles`).
pub proof fn lemma_samples_are_latest(ls: Seq<u64>, m: nat)
    requires
        m >= 1,
    ensures
        samples_after(ls, m) == ls.subrange(
            if ls.len() > m { ls.len() - m } else { 0 },
            ls.len() as int,
        ),
    decreases ls.len(),
{
    if ls.len() > 0 {
        let d = ls.drop_last();
        lemma_samples_are_latest(d, m);
        let w = samples_after(d, m);
        let n = ls.len() as int;
        if n - 1 >= m {
            assert(w.drop_first().push(ls.last()) =~= ls.subrange(n - m, n));
        } else {
            assert(w.push(ls.last()) =~= ls.subrange(0, n));
        }
    }
}

/// The percentile law over a history of recordings: after recording the
/// latencies `ls` from none, the percentiles are read off an ascending
/// arrangement of the last `min(k, m)` of them; they are ordered, and each is
/// one of those latencies.
pub proof fn lemma_percentiles_after_recordings(ls: Seq<u64>, m: nat, t: Seq<u64>)
    requires
        m >= 1,
        sorted_samples(samples_after(ls, m), t),
    ensures
        t.to_multiset() == ls.subrange(if ls.len() > m { ls.len() - m } else { 0 }, ls.len() as int).to_multiset(),
        percentiles_of(t).0 <= percentiles_of(t).1 <= percentiles_of(t).2,
        t.len() > 0 ==> {
            let w = ls.subrange(if ls.len() > m { ls.len() - m } else { 0 }, ls.len() as int);
            &&& w.contains(percentiles_of(t).0)
            &&& w.contains(percentiles_of(t).1)
            &&& w.contains(percentiles_of(t).2)
        },
{
    lemma_samples_are_latest(ls, m);
    lemma_percentiles_ordered(t);
    let w = ls.subrange(if ls.len() > m { ls.len() - m } else { 0 }, ls.len() as int);
    let n = t.len() as int;
    if n > 0 {
        assert(n * 50 / 100 < n) by (nonlinear_arith)
            requires
                n > 0,
        ;
        let (a, b, c) = percentiles_of(t);
        assert(t.contains(a));
        assert(t.contains(b));
        assert(t.contains(c));
        assert(t.to_multiset().count(a) > 0);
        assert(t.to_multiset().count(b) > 0);
        assert(t.to_multiset().count(c) > 0);
    }
}

/// With no samples, as after `reset` or at creation, the percentiles are
/// all zero.
pub proof fn lemma_no_samples_zero_percentiles(t: Seq<u64>)
    requires
        sorted_samples(Seq::<u64>::empty(), t),
    ensures
        percentiles_of(t) == (0u64, 0u64, 0u64),
{
    assert(t.to_multiset().len() == 0);
    assert(t.len() == 0);
}

/// An ascending arrangement of the samples.
pub open spec fn sorted_samples(s: Seq<u64>, t: Seq<u64>) -> bool {
    ascending(t) && t.to_multiset() == s.to_multiset()
}

/// The samples in ascending order.
pub fn sort_samples(v: &Vec<u64>) -> (r: Vec<u64>)
    ensures
        sorted_samples(v@, r@),
{
    let mut out: Vec<u64> = Vec::new();
    let mut i: usize = 0;
    proof {
        assert(v@.subrange(0, 0) =~= Seq::<u64>::empty());
    }
    while i < v.len()
        invariant
            i <= v@.len(),
            ascending(out@),
            out@.len() == i,
            out@.to_multiset() == v@.subrange(0, i as int).to_multiset(),
        decreases v@.len() - i,
    {
        let x = v[i];
        let mut j: usize = 0;
        while j < out.len() && out[j] <= x
            invariant
                j <= out@.len(),
                forall|k: int| 0 <= k < j ==> out@[k] <= x,
            decreases out@.len() - j,
        {
            j = j + 1;
        }
        let ghost before = out@;
        out.insert(j, x);
        proof {
            before.insert_ensures(j as int, x);
            assert(out@ == before.insert(j as int, x));
            assert forall|a: int, b: int| 0 <= a <= b < out@.len() implies out@[a] <= out@[b] by {
                if a < j && b < j {
                } else if a < j && b == j {
                } else if a < j {
                    assert(out@[b] == before[b - 1]);
                } else if a == j && b == j {
                } else if a == j {
                    assert(out@[b] == before[b - 1]);
                    if j < before.len() {
                        assert(before[j as int] > x);
                        assert(before[j as int] <= before[b - 1]);
                    }
                } else {
                    assert(out@[a] == before[a - 1]);
                    assert(out@[b] == before[b - 1]);
                }
            }
            assert(v@.subrange(0, i + 1) =~= v@.subrange(0, i as int).push(x));
        }
        i = i + 1;
    }
    proof {
        assert(v@.subrange(0, v@.len() as int) =~= v@);
    }
    out
}

/// Latency samples, counts and message times of one connection.
pub struct MetricsCollector {
    latency_samples: Vec<u64>,
    message_count: u64,
    last_reset_ms: u64,
    max_samples: usize,
    connection_start_ms: u64,
    error_count: u32,
    reconnect_count: u32,
    message_history: std::collections::VecDeque<u64>,
}

impl MetricsCollector {
    #[verifier::type_invariant]
    closed spec fn inv(self) -> bool {
        self.latency_samples@.len() <= self.max_samples || self.latency_samples@.len() == 0
    }

    /// The latency samples, oldest first.
    pub closed spec fn samples(self) -> Seq<u64> {
        self.latency_samples@
    }

    /// The times of the messages of the last minute, in arrival order.
    pub closed spec fn history(self) -> Seq<u64> {
        self.message_history@
    }

    pub closed spec fn count_spec(self) -> u64 {
        self.message_count
    }

    pub closed spec fn errors_spec(self) -> u32 {
        self.error_count
    }

    pub closed spec fn reconnects_spec(self) -> u32 {
        self.reconnect_count
    }

    pub closed spec fn max_samples_spec(self) -> usize {
        self.max_samples
    }

    pub closed spec fn last_reset_spec(self) -> u64 {
        self.last_reset_ms
    }

    pub closed spec fn connection_start_spec(self) -> u64 {
        self.connection_start_ms
    }

    /// A collector keeping up to `max_samples` latencies, started at `now`.
    pub fn new_at(max_samples: usize, now: u64) -> (r: Self)
        ensures
            r.samples() == Seq::<u64>::empty(),
            r.history() == Seq::<u64>::empty(),
            r.count_spec() == 0,
            r.errors_spec() == 0,
            r.reconnects_spec() == 0,
            r.max_samples_spec() == max_samples,
            r.last_reset_spec() == now,
            r.connection_start_spec() == now,
    {
        MetricsCollector {
            latency_samples: Vec::new(),
            message_count: 0,
            last_reset_ms: now,
            max_samples,
            connection_start_ms: now,
            error_count: 0,
            reconnect_count: 0,
            message_history: std::collections::VecDeque::new(),
        }
    }

    /// A collector started now.
    pub fn new(max_samples: usize) -> (r: Self)
        ensures
            r.samples() == Seq::<u64>::empty(),
            r.history() == Seq::<u64>::empty(),
            r.count_spec() == 0,
            r.errors_spec() == 0,
            r.reconnects_spec() == 0,
            r.max_samples_spec() == max_samples,
            r.last_reset_spec() == r.connection_start_spec(),
    {
        Self::new_at(max_samples, now_ms())
    }

    pub fn message_count(&self) -> (r: u64)
        ensures
            r == self.count_spec(),
    {
        self.message_count
    }

    pub fn error_count(&self) -> (r: u32)
        ensures
            r == self.errors_spec(),
    {
        self.error_count
    }

    pub fn reconnect_count(&self) -> (r: u32)
        ensures
            r == self.reconnects_spec(),
    {
        self.reconnect_count
    }

    pub fn last_reset_ms(&self) -> (r: u64)
        ensures
            r == self.last_reset_spec(),
    {
        self.last_reset_ms
    }

    pub fn connection_start_ms(&self) -> (r: u64)
        ensures
            r == self.connection_start_spec(),
    {
        self.connection_start_ms
    }

    /// The time of the latest message, 0 when none is kept.
    pub fn last_message_time(&self) -> (r: u64)
        ensures
            r == (if self.history().len() == 0 { 0 } else { self.history().last() }),
    {
        if self.message_history.len() == 0 {
            0
        } else {
            self.message_history[self.message_history.len() - 1]
        }
    }

    /// A (re)connection began at `now`.
    pub fn record_connection_start_at(&mut self, now: u64)
        requires
            old(self).reconnects_spec() < u32::MAX,
        ensures
            final(self).connection_start_spec() == now,
            final(self).reconnects_spec() == old(self).reconnects_spec() + 1,
            final(self).samples() == old(self).samples(),
            final(self).history() == old(self).history(),
            final(self).count_spec() == old(self).count_spec(),
            final(self).errors_spec() == old(self).errors_spec(),
            final(self).max_samples_spec() == old(self).max_samples_spec(),
            final(self).last_reset_spec() == old(self).last_reset_spec(),
    {
        proof {
            use_type_invariant(&*self);
        }
        self.connection_start_ms = now;
        self.reconnect_count = self.reconnect_count + 1;
    }

    pub fn record_connection_start(&mut self)
        requires
            old(self).reconnects_spec() < u32::MAX,
        ensures
            final(self).reconnects_spec() == old(self).reconnects_spec() + 1,
            final(self).samples() == old(self).samples(),
            final(self).history() == old(self).history(),
            final(self).count_spec() == old(self).count_spec(),
            final(self).errors_spec() == old(self).errors_spec(),
            final(self).max_samples_spec() == old(self).max_samples_spec(),
            final(self).last_reset_spec() == old(self).last_reset_spec(),
    {
        let now = now_ms();
        self.record_connection_start_at(now);
    }

    /// One more error.
    pub fn record_error(&mut self)
        requires
            old(self).errors_spec() < u32::MAX,
        ensures
            final(self).errors_spec() == old(self).errors_spec() + 1,
            final(self).samples() == old(self).samples(),
            final(self).history() == old(self).history(),
            final(self).count_spec() == old(self).count_spec(),
            final(self).reconnects_spec() == old(self).reconnects_spec(),
            final(self).max_samples_spec() == old(self).max_samples_spec(),
            final(self).last_reset_spec() == old(self).last_reset_spec(),
            final(self).connection_start_spec() == old(self).connection_start_spec(),
    {
        proof {
            use_type_invariant(&*self);
        }
        self.error_count = self.error_count + 1;
    }

    /// A message stamped `event_time` arrived at `now`: its latency is kept
    /// (the oldest dropped at the sample limit), the count grows, and the
    /// arrival time is kept after the leading times older than a minute
    /// before `now` are dropped.
    pub fn record_message_latency_at(&mut self, event_time: u64, now: u64)
        requires
            old(self).max_samples_spec() > 0,
            old(self).count_spec() < u64::MAX,
        ensures
            final(self).samples() == sample_step(
                old(self).samples(),
                sat_sub(now, event_time),
                old(self).max_samples_spec() as nat,
            ),
            final(self).history() == prune_front(old(self).history(), sat_sub(now, RATE_WINDOW_MS)).push(now),
            final(self).count_spec() == old(self).count_spec() + 1,
            final(self).errors_spec() == old(self).errors_spec(),
            final(self).reconnects_spec() == old(self).reconnects_spec(),
            final(self).max_samples_spec() == old(self).max_samples_spec(),
            final(self).last_reset_spec() == old(self).last_reset_spec(),
            final(self).connection_start_spec() == old(self).connection_start_spec(),
    {
        proof {
            use_type_invariant(&*self);
        }
        let latency = now.saturating_sub(event_time);
        let mut samples = Vec::new();
        std::mem::swap(&mut samples, &mut self.latency_samples);
        if samples.len() >= self.max_samples {
            let ghost before = samples@;
            samples.remove(0);
            proof {
                assert(samples@ =~= before.drop_first());
            }
        }
        samples.push(latency);
        self.latency_samples = samples;
        self.message_count = self.message_count + 1;
        let mut history = std::collections::VecDeque::new();
        std::mem::swap(&mut history, &mut self.message_history);
        let cutoff = now.saturating_sub(RATE_WINDOW_MS);
        let ghost before = history@;
        while history.len() > 0 && history[0] < cutoff
            invariant
                prune_front(history@, cutoff) == prune_front(before, cutoff),
            decreases history@.len(),
        {
            let ghost h = history@;
            let _ = history.pop_front();
            proof {
                assert(history@ =~= h.drop_first());
            }
        }
        history.push_back(now);
        self.message_history = history;
    }

    pub fn record_message_latency(&mut self, event_time: u64)
        requires
            old(self).max_samples_spec() > 0,
            old(self).count_spec() < u64::MAX,
        ensures
            exists|now: u64|
                final(self).samples() == (if old(self).samples().len() >= old(self).max_samples_spec() {
                    old(self).samples().drop_first()
                } else {
                    old(self).samples()
                }).push(sat_sub(now, event_time)) && final(self).history() == prune_front(
                    old(self).history(),
                    sat_sub(now, RATE_WINDOW_MS),
                ).push(now),
            final(self).count_spec() == old(self).count_spec() + 1,
            final(self).errors_spec() == old(self).errors_spec(),
            final(self).reconnects_spec() == old(self).reconnects_spec(),
            final(self).max_samples_spec() == old(self).max_samples_spec(),
    {
        let now = now_ms();
        self.record_message_latency_at(event_time, now);
    }

    /// The p50, p95 and p99 latencies of the kept samples (see
    /// `percentiles_of`).
    pub fn calculate_percentiles(&self) -> (r: (u64, u64, u64))
        ensures
            exists|t: Seq<u64>| #[trigger] sorted_samples(self.samples(), t) && r == percentiles_of(t),
    {
        let sorted = sort_samples(&self.latency_samples);
        proof {
            assert(sorted_samples(self.samples(), sorted@));
        }
        let n = sorted.len();
        if n == 0 {
            proof {
                assert(percentiles_of(sorted@) == (0u64, 0u64, 0u64));
            }
            return (0, 0, 0);
        }
        let p50_idx = mul_div(n, 50);
        let p95_idx = mul_div(n, 95);
        let p99_idx = mul_div(n, 99);
        let i95 = if p95_idx < n - 1 { p95_idx } else { n - 1 };
        let i99 = if p99_idx < n - 1 { p99_idx } else { n - 1 };
        let r = (sorted[p50_idx], sorted[i95], sorted[i99]);
        proof {
            assert(r == percentiles_of(sorted@));
        }
        r
    }

    /// Clears samples, count and message times; the reset happened at `now`.
    pub fn reset_at(&mut self, now: u64)
        ensures
            final(self).samples() == Seq::<u64>::empty(),
            final(self).history() == Seq::<u64>::empty(),
            final(self).count_spec() == 0,
            final(self).last_reset_spec() == now,
            final(self).errors_spec() == old(self).errors_spec(),
            final(self).reconnects_spec() == old(self).reconnects_spec(),
            final(self).max_samples_spec() == old(self).max_samples_spec(),
            final(self).connection_start_spec() == old(self).connection_start_spec(),
    {
        proof {
            use_type_invariant(&*self);
        }
        self.latency_samples = Vec::new();
        self.message_count = 0;
        self.message_history = std::collections::VecDeque::new();
        self.last_reset_ms = now;
    }

    pub fn reset(&mut self)
        ensures
            final(self).samples() == Seq::<u64>::empty(),
            final(self).history() == Seq::<u64>::empty(),
            final(self).count_spec() == 0,
            final(self).errors_spec() == old(self).errors_spec(),
            final(self).reconnects_spec() == old(self).reconnects_spec(),
            final(self).max_samples_spec() == old(self).max_samples_spec(),
            final(self).connection_start_spec() == old(self).connection_start_spec(),
    {
        let now = now_ms();
        self.reset_at(now);
    }
}

/// `n * q / 100`, computed without overflow.
fn mul_div(n: usize, q: usize) -> (r: usize)
    requires
        q < 100,
        n > 0,
    ensures
        r == n * q / 100,
        r < n,
{
    let a = n / 100;
    let b = n % 100;
    proof {
        assert(n == a * 100 + b);
        assert(n * q == a * q * 100 + b * q) by (nonlinear_arith)
            requires
                n == a * 100 + b,
        ;
        assert((a * q * 100 + b * q) / 100 == a * q + (b * q) / 100) by (nonlinear_arith)
            requires
                a >= 0,
                q >= 0,
                b >= 0,
        ;
        assert(n * q / 100 < n) by (nonlinear_arith)
            requires
                q < 100,
                n > 0,
        ;
        assert(a * q <= n) by (nonlinear_arith)
            requires
                q < 100,
                a >= 0,
                a * 100 <= n,
        ;
        assert(b * q < 100 * 100) by (nonlinear_arith)
            requires
                q < 100,
                0 <= b < 100,
        ;
    }
    a * q + (b * q) / 100
}

/// How many of the times are at or after `from`.
pub open spec fn count_since(h: Seq<u64>, from: u64) -> nat
    decreases h.len(),
{
    if h.len() == 0 {
        0
    } else {
        count_since(h.drop_last(), from) + (if h.last() >= from { 1nat } else { 0nat })
    }
}

/// The quality grade at `now` for a collector whose latest message came at
/// `last`, with `recent` messages in the last minute and median latency
/// `p50`. The message rate is `recent / 60` per second, so the rate
/// thresholds 1000, 500 and 100 are 60000, 30000 and 6000 messages.
pub open spec fn quality_of(now: u64, last: u64, recent: nat, p50: u64) -> ConnectionQualityLevel {
    if sat_sub(now, last) > 30_000 {
        ConnectionQualityLevel::Critical
    } else if p50 < 100 && recent > 60_000 {
        ConnectionQualityLevel::Excellent
    } else if p50 < 500 && recent > 30_000 {
        ConnectionQualityLevel::Good
    } else if p50 < 1000 && recent > 6_000 {
        ConnectionQualityLevel::Fair
    } else {
        ConnectionQualityLevel::Poor
    }
}

/// `q` is the collector's grade at `now`: its latest message time, the
/// messages of the last minute and the median of its samples, graded by
/// `quality_of`.
pub open spec fn graded(c: MetricsCollector, now: u64, q: ConnectionQualityLevel) -> bool {
    exists|t: Seq<u64>|
        #[trigger] sorted_samples(c.samples(), t) && q == quality_of(
            now,
            if c.history().len() == 0 { 0 } else { c.history().last() },
            count_since(c.history(), sat_sub(now, 60_000)),
            percentiles_of(t).0,
        )
}

/// `b` says whether the grade at `now` is Excellent, Good or Fair.
pub open spec fn acceptable(c: MetricsCollector, now: u64, b: bool) -> bool {
    exists|q: ConnectionQualityLevel|
        #[trigger] graded(c, now, q) && b == (q != ConnectionQualityLevel::Poor && q != ConnectionQualityLevel::Critical)
}

proof fn lemma_count_since_prepend(x: u64, t: Seq<u64>, from: u64)
    ensures
        count_since(seq![x] + t, from) == count_since(t, from) + (if x >= from { 1nat } else { 0nat }),
    decreases t.len(),
{
    let h = seq![x] + t;
    if t.len() == 0 {
        assert(h.drop_last() =~= Seq::<u64>::empty());
        assert(h.last() == x);
        assert(count_since(Seq::<u64>::empty(), from) == 0);
        assert(count_since(t, from) == 0);
    } else {
        assert(h.drop_last() =~= seq![x] + t.drop_last());
        assert(h.last() == t.last());
        lemma_count_since_prepend(x, t.drop_last(), from);
    }
}

/// Dropping the times before `cutoff` changes no count of the times at or
/// after a later `from`: the last minute's messages are all still counted.
pub proof fn lemma_pruning_keeps_window(h: Seq<u64>, cutoff: u64, from: u64)
    requires
        cutoff <= from,
    ensures
        count_since(prune_front(h, cutoff), from) == count_since(h, from),
    decreases h.len(),
{
    if h.len() > 0 && h[0] < cutoff {
        lemma_pruning_keeps_window(h.drop_first(), cutoff, from);
        assert(h =~= seq![h[0]] + h.drop_first());
        lemma_count_since_prepend(h[0], h.drop_first(), from);
    }
}

/// Recording a message at `now` adds one to the count of every window that
/// starts at most a minute before `now` and not after it, however many
/// messages the window already holds.
pub proof fn lemma_record_adds_one(h: Seq<u64>, now: u64, from: u64)
    requires
        sat_sub(now, RATE_WINDOW_MS) <= from <= now,
    ensures
        count_since(prune_front(h, sat_sub(now, RATE_WINDOW_MS)).push(now), from) == count_since(h, from) + 1,
{
    let p = prune_front(h, sat_sub(now, RATE_WINDOW_MS));
    lemma_pruning_keeps_window(h, sat_sub(now, RATE_WINDOW_MS), from);
    assert(p.push(now).drop_last() =~= p);
}

impl MetricsCollector {
    fn recent_count(&self, from: u64) -> (r: usize)
        ensures
            r == count_since(self.history(), from),
    {
        let mut c: usize = 0;
        let mut i: usize = 0;
        while i < self.message_history.len()
            invariant
                i <= self.message_history@.len(),
                c == count_since(self.message_history@.subrange(0, i as int), from),
                c <= i,
            decreases self.message_history@.len() - i,
        {
            proof {
                assert(self.message_history@.subrange(0, i + 1).drop_last() =~= self.message_history@.subrange(
                    0,
                    i as int,
                ));
            }
            if self.message_history[i] >= from {
                c = c + 1;
            }
            i = i + 1;
        }
        proof {
            assert(self.message_history@.subrange(0, self.message_history@.len() as int) =~= self.message_history@);
        }
        c
    }

    /// The quality grade at `now` (see `graded`).
    pub fn calculate_connection_quality_at(&self, now: u64) -> (r: ConnectionQualityLevel)
        ensures
            graded(*self, now, r),
    {
        let last = self.last_message_time();
        let since = now.saturating_sub(last);
        let recent = self.recent_count(now.saturating_sub(60_000));
        let (p50, _p95, _p99) = self.calculate_percentiles();
        if since > 30_000 {
            ConnectionQualityLevel::Critical
        } else if p50 < 100 && recent > 60_000 {
            ConnectionQualityLevel::Excellent
        } else if p50 < 500 && recent > 30_000 {
            ConnectionQualityLevel::Good
        } else if p50 < 1000 && recent > 6_000 {
            ConnectionQualityLevel::Fair
        } else {
            ConnectionQualityLevel::Poor
        }
    }

    /// The quality grade now.
    pub fn calculate_connection_quality(&self) -> (r: ConnectionQualityLevel)
        ensures
            exists|now: u64| #[trigger] graded(*self, now, r),
    {
        let now = now_ms();
        self.calculate_connection_quality_at(now)
    }

    /// Whether the grade at `now` is Excellent, Good or Fair.
    pub fn is_connection_acceptable_at(&self, now: u64) -> (r: bool)
        ensures
            acceptable(*self, now, r),
    {
        let q = self.calculate_connection_quality_at(now);
        match q {
            ConnectionQualityLevel::Excellent | ConnectionQualityLevel::Good | ConnectionQualityLevel::Fair => true,
            _ => false,
        }
    }

    /// Whether the grade now is Excellent, Good or Fair.
    pub fn is_connection_acceptable(&self) -> (r: bool)
        ensures
            exists|now: u64| #[trigger] acceptable(*self, now, r),
    {
        let now = now_ms();
        self.is_connection_acceptable_at(now)
    }

    /// What a market event means for the metrics, at `now`: a price update
    /// is a message with its time stamp, an error is an error, the rest
    /// change nothing.
    pub fn handle_market_event_at(&mut self, event: &MarketEvent, now: u64)
        requires
            old(self).max_samples_spec() > 0,
            old(self).count_spec() < u64::MAX,
            old(self).errors_spec() < u32::MAX,
        ensures
            match *event {
                MarketEvent::PriceUpdate { time, .. } => {
                    &&& final(self).samples() == (if old(self).samples().len() >= old(self).max_samples_spec() {
                        old(self).samples().drop_first()
                    } else {
                        old(self).samples()
                    }).push(sat_sub(now, time))
                    &&& final(self).count_spec() == old(self).count_spec() + 1
                    &&& final(self).errors_spec() == old(self).errors_spec()
                },
                MarketEvent::Error { .. } => {
                    &&& final(self).errors_spec() == old(self).errors_spec() + 1
                    &&& final(self).samples() == old(self).samples()
                    &&& final(self).count_spec() == old(self).count_spec()
                },
                _ => {
                    &&& final(self).samples() == old(self).samples()
                    &&& final(self).history() == old(self).history()
                    &&& final(self).count_spec() == old(self).count_spec()
                    &&& final(self).errors_spec() == old(self).errors_spec()
                },
            },
    {
        match event {
            MarketEvent::PriceUpdate { time, .. } => self.record_message_latency_at(*time, now),
            MarketEvent::Error { .. } => self.record_error(),
            _ => {},
        }
    }
}


/// What each grade requires: Excellent a median latency under 100 ms and
/// over 60000 messages in the last minute (1000 a second), Good under
/// 500 ms and over 30000, Fair under 1000 ms and over 6000; any grade but
/// Critical a message within the last 30 seconds. In particular an
/// acceptable grade (Excellent, Good or Fair) needs a median below 1000 ms.
pub proof fn lemma_grade_requirements(now: u64, last: u64, recent: nat, p50: u64)
    ensures
        quality_of(now, last, recent, p50) == ConnectionQualityLevel::Excellent ==> p50 < 100 && recent > 60_000,
        quality_of(now, last, recent, p50) == ConnectionQualityLevel::Good ==> p50 < 500 && recent > 30_000,
        quality_of(now, last, recent, p50) == ConnectionQualityLevel::Fair ==> p50 < 1000 && recent > 6_000,
        quality_of(now, last, recent, p50) != ConnectionQualityLevel::Critical <==> sat_sub(now, last) <= 30_000,
        (quality_of(now, last, recent, p50) != ConnectionQualityLevel::Poor && quality_of(now, last, recent, p50)
            != ConnectionQualityLevel::Critical) ==> p50 < 1000 && recent > 6_000,
        (sat_sub(now, last) <= 30_000 && (p50 >= 1000 || recent <= 6_000)) ==> quality_of(now, last, recent, p50)
            == ConnectionQualityLevel::Poor,
{
}

/// A collector judged acceptable at `now` has a median latency below
/// 1000 ms and over 6000 messages in the minute before `now`.
pub proof fn lemma_acceptable_needs_fast_busy_link(c: MetricsCollector, now: u64)
    requires
        acceptable(c, now, true),
    ensures
        exists|t: Seq<u64>|
            #[trigger] sorted_samples(c.samples(), t) && percentiles_of(t).0 < 1000 && count_since(
                c.history(),
                sat_sub(now, 60_000),
            ) > 6_000,
{
    let q = choose|q: ConnectionQualityLevel| #[trigger] graded(c, now, q) && true == (q
        != ConnectionQualityLevel::Poor && q != ConnectionQualityLevel::Critical);
    let t = choose|t: Seq<u64>|
        #[trigger] sorted_samples(c.samples(), t) && q == quality_of(
            now,
            if c.history().len() == 0 { 0 } else { c.history().last() },
            count_since(c.history(), sat_sub(now, 60_000)),
            percentiles_of(t).0,
        );
    lemma_grade_requirements(
        now,
        if c.history().len() == 0 { 0 } else { c.history().last() },
        count_since(c.history(), sat_sub(now, 60_000)),
        percentiles_of(t).0,
    );
}

} // verus!
