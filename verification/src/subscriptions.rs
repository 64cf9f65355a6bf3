//! The market data manager's decisions: which subscriptions are open,
//! whether a new one is admitted and where it connects, and how fresh each
//! book is. Tasks, channels and connections stay with the application.

use vstd::prelude::*;
use vstd::string::*;
use crate::config::BinanceConfig;
use crate::market::{MarketKey, MarketType, key_view};
use crate::orderbook::OrderBook;
use crate::text::{chars_of, string_from_chars, str_eq};
use crate::fixed::{decimal, format_u64};

verus! {

/// Most subscriptions open at once.
pub const MAX_SUBSCRIPTIONS: usize = 20;

/// Above this many open subscriptions a new one is delayed briefly.
pub const RATE_LIMIT_THRESHOLD: usize = 5;

/// State of one subscription.
#[derive(Debug, Clone, Copy, PartialEq, Eq, Structural)]
pub enum SubscriptionStatus {
    Active,
    Reconnecting,
    Failed,
    Disconnected,
}

/// Signals sent to a subscription task.
#[derive(Debug, Clone, Copy, PartialEq, Eq, Structural)]
pub enum ControlMessage {
    Shutdown,
    Reconnect,
    UpdateConfig,
}

pub open spec fn is_symbol_char(c: char) -> bool {
    ('A' <= c && c <= 'Z') || ('0' <= c && c <= '9')
}

/// A symbol of at least three characters, each an ASCII capital or digit.
pub open spec fn valid_symbol(s: Seq<char>) -> bool {
    s.len() >= 3 && forall|i: int| 0 <= i < s.len() ==> is_symbol_char(#[trigger] s[i])
}

pub fn is_valid_symbol_format(symbol: &str) -> (r: bool)
    ensures
        r == valid_symbol(symbol@),
{
    let cs = chars_of(symbol);
    let mut i: usize = 0;
    while i < cs.len()
        invariant
            cs@ == symbol@,
            i <= cs@.len(),
            forall|j: int| 0 <= j < i ==> is_symbol_char(#[trigger] cs@[j]),
        decreases cs@.len() - i,
    {
        let c = cs[i];
        if !(('A' <= c && c <= 'Z') || ('0' <= c && c <= '9')) {
            return false;
        }
        i = i + 1;
    }
    cs.len() >= 3
}

/// Whether `s` ends with `suffix`.
pub open spec fn ends_with(s: Seq<char>, suffix: Seq<char>) -> bool {
    suffix.len() <= s.len() && s.subrange(s.len() - suffix.len(), s.len() as int) == suffix
}

fn ends_with_str(s: &Vec<char>, suffix: &str) -> (r: bool)
    ensures
        r == ends_with(s@, suffix@),
{
    let t = chars_of(suffix);
    if t.len() > s.len() {
        return false;
    }
    let off = s.len() - t.len();
    let mut j: usize = off;
    while j < s.len()
        invariant
            t@ == suffix@,
            t@.len() <= s@.len(),
            off == s@.len() - t@.len(),
            off <= j <= s@.len(),
            forall|k: int| off <= k < j ==> s@[k] == t@[k - off],
        decreases s@.len() - j,
    {
        if s[j] != t[j - off] {
            proof {
                assert(s@.subrange(off as int, s@.len() as int)[j - off] != t@[j - off]);
            }
            return false;
        }
        j = j + 1;
    }
    proof {
        assert(s@.subrange(off as int, s@.len() as int) =~= t@);
    }
    true
}

/// `s` without its trailing '/' characters.
pub open spec fn trim_slashes(s: Seq<char>) -> Seq<char>
    decreases s.len(),
{
    if s.len() > 0 && s.last() == '/' {
        trim_slashes(s.drop_last())
    } else {
        s
    }
}

/// The stream URL a subscription connects to: kept when it ends in "/ws"
/// or "/stream", otherwise "/ws" goes after the URL without trailing '/'.
pub open spec fn stream_url(base: Seq<char>) -> Seq<char> {
    if ends_with(base, "/ws"@) || ends_with(base, "/stream"@) {
        base
    } else {
        trim_slashes(base) + "/ws"@
    }
}

pub fn subscription_ws_url(base: &str) -> (r: String)
    ensures
        r@ == stream_url(base@),
{
    let cs = chars_of(base);
    if ends_with_str(&cs, "/ws") || ends_with_str(&cs, "/stream") {
        return String::from_str(base);
    }
    let mut t = cs;
    while t.len() > 0 && t[t.len() - 1] == '/'
        invariant
            trim_slashes(t@) == trim_slashes(base@),
        decreases t@.len(),
    {
        let ghost before = t@;
        t.pop();
        proof {
            assert(before.drop_last() =~= t@);
        }
    }
    let mut s = string_from_chars(&t);
    s.append("/ws");
    s
}

/// The built-in perpetual endpoints, used when the configuration names none.
pub const DEFAULT_PERP_WS_URL: &'static str = "wss://fstream.binance.com";

pub const DEFAULT_PERP_REST_URL: &'static str = "https://fapi.binance.com";

/// The (stream base, REST base) pair of a market.
pub open spec fn market_urls(mt: MarketType, cfg: BinanceConfig) -> (Seq<char>, Seq<char>) {
    match mt {
        MarketType::Spot => (cfg.ws_url@, cfg.rest_url@),
        MarketType::PerpUsdt => match cfg.perp_usdt {
            Some(p) => (p.ws_url@, p.rest_url@),
            None => ("wss://fstream.binance.com"@, "https://fapi.binance.com"@),
        },
    }
}

/// Where an admitted subscription connects, and whether to wait a moment
/// before it does.
#[derive(Debug)]
pub struct SubscriptionPlan {
    pub ws_url: String,
    pub rest_url: String,
    pub delay: bool,
}

/// Why a subscription was not admitted.
#[derive(Debug, Clone)]
pub enum SubscribeError {
    TooManySubscriptions,
    InvalidSymbol(String),
}

impl SubscribeError {
    pub fn message(&self) -> (r: String)
        ensures
            r@ == (match *self {
                SubscribeError::TooManySubscriptions => "Maximum concurrent subscriptions (20) reached"@,
                SubscribeError::InvalidSymbol(s) => "Invalid symbol format: "@ + s@,
            }),
    {
        match self {
            SubscribeError::TooManySubscriptions => String::from_str(
                "Maximum concurrent subscriptions (20) reached",
            ),
            SubscribeError::InvalidSymbol(s) => {
                let mut m = String::from_str("Invalid symbol format: ");
                m.append(s.as_str());
                m
            },
        }
    }
}

/// The keys as plain values.
pub open spec fn keys_view(s: Seq<MarketKey>) -> Seq<(MarketType, Seq<char>)> {
    s.map_values(|k: MarketKey| key_view(k))
}

/// The open subscriptions, each key once.
#[derive(Debug)]
pub struct SubscriptionRegistry {
    keys: Vec<MarketKey>,
}

impl View for SubscriptionRegistry {
    type V = Seq<(MarketType, Seq<char>)>;

    closed spec fn view(&self) -> Seq<(MarketType, Seq<char>)> {
        keys_view(self.keys@)
    }
}

/// What admitting `key` to a registry holding `keys` answers: `Ok(None)`
/// when it is already open; the limit, then the symbol's form, refuse it;
/// otherwise the market's URLs and a delay above the rate threshold.
pub open spec fn admission(
    keys: Seq<(MarketType, Seq<char>)>,
    key: MarketKey,
    cfg: BinanceConfig,
    r: Result<Option<SubscriptionPlan>, SubscribeError>,
) -> bool {
    if keys.contains(key_view(key)) {
        r matches Ok(None)
    } else if keys.len() >= MAX_SUBSCRIPTIONS {
        r matches Err(SubscribeError::TooManySubscriptions)
    } else if !valid_symbol(key.symbol@) {
        r matches Err(SubscribeError::InvalidSymbol(s)) && s@ == key.symbol@
    } else {
        r matches Ok(Some(p)) && p.ws_url@ == stream_url(market_urls(key.market_type, cfg).0) && p.rest_url@
            == market_urls(key.market_type, cfg).1 && p.delay == (keys.len() > RATE_LIMIT_THRESHOLD)
    }
}

impl SubscriptionRegistry {
    #[verifier::type_invariant]
    closed spec fn inv(self) -> bool {
        &&& keys_view(self.keys@).no_duplicates()
        &&& self.keys@.len() <= MAX_SUBSCRIPTIONS
    }

    pub fn new() -> (r: Self)
        ensures
            r@ == Seq::<(MarketType, Seq<char>)>::empty(),
    {
        let r = SubscriptionRegistry { keys: Vec::new() };
        proof {
            assert(keys_view(r.keys@) =~= Seq::<(MarketType, Seq<char>)>::empty());
        }
        r
    }

    pub fn len(&self) -> (r: usize)
        ensures
            r == self@.len(),
            r <= MAX_SUBSCRIPTIONS,
    {
        proof {
            use_type_invariant(self);
        }
        self.keys.len()
    }

    /// Whether a key is open.
    pub fn contains(&self, key: &MarketKey) -> (r: bool)
        ensures
            r == self@.contains(key_view(*key)),
    {
        let mut i: usize = 0;
        while i < self.keys.len()
            invariant
                i <= self.keys@.len(),
                forall|j: int| 0 <= j < i ==> #[trigger] key_view(self.keys@[j]) != key_view(*key),
            decreases self.keys@.len() - i,
        {
            let k = &self.keys[i];
            if k.market_type == key.market_type && str_eq(k.symbol.as_str(), key.symbol.as_str()) {
                proof {
                    assert(keys_view(self.keys@)[i as int] == key_view(*key));
                }
                return true;
            }
            i = i + 1;
        }
        proof {
            if self@.contains(key_view(*key)) {
                let j = choose|j: int| 0 <= j < self@.len() && self@[j] == key_view(*key);
                assert(key_view(self.keys@[j]) == key_view(*key));
            }
        }
        false
    }

    /// Decides whether `key` may be opened (see `admission`).
    pub fn plan_subscription(&self, key: &MarketKey, cfg: &BinanceConfig) -> (r: Result<
        Option<SubscriptionPlan>,
        SubscribeError,
    >)
        ensures
            admission(self@, *key, *cfg, r),
    {
        if self.contains(key) {
            return Ok(None);
        }
        if self.keys.len() >= MAX_SUBSCRIPTIONS {
            return Err(SubscribeError::TooManySubscriptions);
        }
        if !is_valid_symbol_format(key.symbol.as_str()) {
            return Err(SubscribeError::InvalidSymbol(key.symbol.clone()));
        }
        let delay = self.keys.len() > RATE_LIMIT_THRESHOLD;
        let (ws_base, rest_url) = match key.market_type {
            MarketType::Spot => (cfg.ws_url.clone(), cfg.rest_url.clone()),
            MarketType::PerpUsdt => match &cfg.perp_usdt {
                Some(p) => (p.ws_url.clone(), p.rest_url.clone()),
                None => (String::from_str(DEFAULT_PERP_WS_URL), String::from_str(DEFAULT_PERP_REST_URL)),
            },
        };
        let ws_url = subscription_ws_url(ws_base.as_str());
        Ok(Some(SubscriptionPlan { ws_url, rest_url, delay }))
    }

    /// Records an opened subscription; `false` (and no change) when the
    /// key was registered meanwhile or the registry is full.
    pub fn register(&mut self, key: MarketKey) -> (r: bool)
        ensures
            r == (!old(self)@.contains(key_view(key)) && old(self)@.len() < MAX_SUBSCRIPTIONS),
            final(self)@.len() <= MAX_SUBSCRIPTIONS,
            r ==> final(self)@ == old(self)@.push(key_view(key)),
            !r ==> final(self)@ == old(self)@,
    {
        proof {
            use_type_invariant(&*self);
        }
        if self.contains(&key) || self.keys.len() >= MAX_SUBSCRIPTIONS {
            return false;
        }
        let ghost before = self.keys@;
        let mut keys = Vec::new();
        std::mem::swap(&mut keys, &mut self.keys);
        keys.push(key);
        proof {
            assert(keys_view(keys@) =~= keys_view(before).push(key_view(key)));
        }
        self.keys = keys;
        true
    }

    /// Drops a subscription; whether it was open.
    pub fn unregister(&mut self, key: &MarketKey) -> (r: bool)
        ensures
            r == old(self)@.contains(key_view(*key)),
            r ==> exists|i: int|
                0 <= i < old(self)@.len() && old(self)@[i] == key_view(*key) && final(self)@ == old(self)@.remove(i),
            !r ==> final(self)@ == old(self)@,
    {
        proof {
            use_type_invariant(&*self);
        }
        let mut i: usize = 0;
        while i < self.keys.len()
            invariant
                i <= self.keys@.len(),
                self.keys@ == old(self).keys@,
                keys_view(self.keys@).no_duplicates(),
                self.keys@.len() <= MAX_SUBSCRIPTIONS,
                forall|j: int| 0 <= j < i ==> #[trigger] key_view(self.keys@[j]) != key_view(*key),
            decreases self.keys@.len() - i,
        {
            let k = &self.keys[i];
            if k.market_type == key.market_type && str_eq(k.symbol.as_str(), key.symbol.as_str()) {
                let ghost before = self.keys@;
                let mut keys = Vec::new();
                std::mem::swap(&mut keys, &mut self.keys);
                keys.remove(i);
                proof {
                    assert(keys_view(keys@) =~= keys_view(before).remove(i as int));
                    assert(keys_view(before)[i as int] == key_view(*key));
                    lemma_remove_keeps_distinct(keys_view(before), i as int);
                }
                self.keys = keys;
                proof {
                    assert(self@ == old(self)@.remove(i as int));
                    assert(old(self)@[i as int] == key_view(*key));
                }
                return true;
            }
            i = i + 1;
        }
        proof {
            if self@.contains(key_view(*key)) {
                let j = choose|j: int| 0 <= j < self@.len() && self@[j] == key_view(*key);
                assert(key_view(self.keys@[j]) == key_view(*key));
            }
        }
        false
    }

    /// The open keys, in the order they were opened.
    pub fn list(&self) -> (r: Vec<MarketKey>)
        ensures
            keys_view(r@) == self@,
    {
        let mut out: Vec<MarketKey> = Vec::new();
        let mut i: usize = 0;
        while i < self.keys.len()
            invariant
                i <= self.keys@.len(),
                keys_view(out@) == keys_view(self.keys@.subrange(0, i as int)),
            decreases self.keys@.len() - i,
        {
            let ghost before = out@;
            let k = self.keys[i].duplicate();
            out.push(k);
            proof {
                assert(out@ == before.push(k));
                assert(keys_view(out@) =~= keys_view(before).push(key_view(k)));
                assert(self.keys@.subrange(0, i + 1) =~= self.keys@.subrange(0, i as int).push(self.keys@[i as int]));
                assert(keys_view(self.keys@.subrange(0, i + 1)) =~= keys_view(self.keys@.subrange(0, i as int)).push(key_view(self.keys@[i as int])));
            }
            i = i + 1;
        }
        proof {
            assert(self.keys@.subrange(0, self.keys@.len() as int) =~= self.keys@);
        }
        out
    }
}

proof fn lemma_remove_keeps_distinct(s: Seq<(MarketType, Seq<char>)>, i: int)
    requires
        s.no_duplicates(),
        0 <= i < s.len(),
    ensures
        s.remove(i).no_duplicates(),
{
    let t = s.remove(i);
    assert forall|a: int, b: int| 0 <= a < t.len() && 0 <= b < t.len() && a != b implies t[a] != t[b] by {
        let ia = if a < i { a } else { a + 1 };
        let ib = if b < i { b } else { b + 1 };
        assert(t[a] == s[ia]);
        assert(t[b] == s[ib]);
    }
}

/// Opening a key that is not open and then dropping it leaves the open keys
/// as they were: the only place the dropped key can stand is the end.
pub proof fn lemma_register_then_unregister(s: Seq<(MarketType, Seq<char>)>, k: (MarketType, Seq<char>), i: int)
    requires
        !s.contains(k),
        0 <= i < s.len() + 1,
        s.push(k)[i] == k,
    ensures
        s.push(k).remove(i) == s,
{
    if i < s.len() {
        assert(s.push(k)[i] == s[i]);
        assert(s.contains(s[i]));
    }
    assert(s.push(k).remove(i) =~= s);
}

/// A key that admission plans for is not open, and registering it keeps
/// the registry within its limit; a key admission answers `Ok(None)` for
/// is already open, so registering it changes nothing (see `register`).
pub proof fn lemma_admission_then_registration(
    keys: Seq<(MarketType, Seq<char>)>,
    key: MarketKey,
    cfg: BinanceConfig,
    r: Result<Option<SubscriptionPlan>, SubscribeError>,
)
    requires
        admission(keys, key, cfg, r),
    ensures
        r matches Ok(Some(_)) ==> !keys.contains(key_view(key)) && keys.push(key_view(key)).len()
            <= MAX_SUBSCRIPTIONS && valid_symbol(key.symbol@),
        r matches Ok(None) ==> keys.contains(key_view(key)),
        r is Err ==> !keys.contains(key_view(key)),
{
}

/// How many open subscriptions call for a delay before the next one.
pub fn is_subscribing_too_fast(open: usize) -> (r: bool)
    ensures
        r == (open > RATE_LIMIT_THRESHOLD),
{
    open > RATE_LIMIT_THRESHOLD
}

/// The text a key is listed under in the statistics.
pub open spec fn key_label(k: (MarketType, Seq<char>)) -> Seq<char> {
    "MarketKey { market_type: "@ + (if k.0 == MarketType::Spot { "Spot"@ } else { "PerpUsdt"@ })
        + ", symbol: \""@ + k.1 + "\" }"@
}

fn key_label_string(k: &MarketKey) -> (r: String)
    ensures
        r@ == key_label(key_view(*k)),
{
    let mut s = String::from_str("MarketKey { market_type: ");
    match k.market_type {
        MarketType::Spot => s.append("Spot"),
        MarketType::PerpUsdt => s.append("PerpUsdt"),
    }
    s.append(", symbol: \"");
    s.append(k.symbol.as_str());
    s.append("\" }");
    s
}

/// Subscription statistics.
#[derive(Debug)]
pub struct SubscriptionStats {
    pub total_subscriptions: usize,
    pub symbols: Vec<String>,
    pub memory_usage_estimate: usize,
}

impl SubscriptionRegistry {
    /// Counts, labels and an estimate of one MiB per subscription
    /// (saturating at the largest `usize`).
    pub fn stats(&self) -> (r: SubscriptionStats)
        ensures
            r.total_subscriptions == self@.len(),
            r.symbols@.len() == self@.len(),
            forall|i: int| 0 <= i < self@.len() ==> #[trigger] r.symbols@[i]@ == key_label(self@[i]),
            r.memory_usage_estimate == (if self@.len() * 1048576 <= usize::MAX {
                self@.len() * 1048576
            } else {
                usize::MAX as nat
            }),
    {
        proof {
            use_type_invariant(self);
        }
        let n = self.keys.len();
        let mut symbols: Vec<String> = Vec::new();
        let mut i: usize = 0;
        while i < self.keys.len()
            invariant
                i <= self.keys@.len(),
                symbols@.len() == i,
                forall|j: int| 0 <= j < i ==> #[trigger] symbols@[j]@ == key_label(key_view(self.keys@[j])),
            decreases self.keys@.len() - i,
        {
            symbols.push(key_label_string(&self.keys[i]));
            i = i + 1;
        }
        let estimate = if n <= usize::MAX / 1048576 {
            n * 1048576
        } else {
            usize::MAX
        };
        SubscriptionStats { total_subscriptions: n, symbols, memory_usage_estimate: estimate }
    }
}

/// `a - b`, or 0 when `b` is larger.
pub open spec fn sat_sub(a: u64, b: u64) -> u64 {
    if a >= b { (a - b) as u64 } else { 0 }
}

/// Whether a book needs recovery at time `now`: there is none, it was never
/// updated, or it has been silent for longer than `max_stale_ms`.
pub open spec fn recovery_needed(book: Option<OrderBook>, now: u64, max_stale_ms: u64) -> bool {
    match book {
        None => true,
        Some(b) => b.last_update_time == 0 || sat_sub(now, b.last_update_time) > max_stale_ms,
    }
}

pub fn needs_recovery(book: Option<&OrderBook>, now: u64, max_stale_ms: u64) -> (r: bool)
    ensures
        r == recovery_needed(
            match book {
                Some(b) => Some(*b),
                None => None,
            },
            now,
            max_stale_ms,
        ),
{
    match book {
        None => true,
        Some(b) => {
            if b.last_update_time == 0 {
                return true;
            }
            now.saturating_sub(b.last_update_time) > max_stale_ms
        },
    }
}

/// How fresh a book's data is, by the time since its last change.
pub open spec fn freshness(elapsed_ms: u64) -> Seq<char> {
    if elapsed_ms < 1000 {
        "fresh"@
    } else if elapsed_ms < 5000 {
        "stale"@
    } else {
        "outdated"@
    }
}

/// Connection quality figures of one subscription.
#[derive(Debug)]
pub struct ConnectionQuality {
    pub symbol: String,
    pub data_freshness: String,
    pub time_since_last_update_ms: u64,
    pub orderbook_depth: usize,
    /// Best ask minus best bid, 0 when a side is empty.
    pub spread: i128,
}

/// The quality figures of a key's book at time `now`, none without a book.
/// The book's last change is its last update, or its snapshot time when it
/// was never updated.
pub fn connection_quality(key: &MarketKey, book: Option<&OrderBook>, now: u64) -> (r: Option<ConnectionQuality>)
    ensures
        book is None <==> r is None,
        match (book, r) {
            (Some(b), Some(q)) => {
                let last = if b.last_update_time > 0 { b.last_update_time } else { b.snapshot_time };
                &&& q.symbol@ == key.symbol@
                &&& q.time_since_last_update_ms == sat_sub(now, last)
                &&& q.data_freshness@ == freshness(sat_sub(now, last))
                &&& q.orderbook_depth == (if b.bids@.len() + b.asks@.len() > usize::MAX {
                    usize::MAX as int
                } else {
                    (b.bids@.len() + b.asks@.len()) as int
                })
                &&& (b.bids@ == Map::<int, int>::empty() || b.asks@ == Map::<int, int>::empty()) ==> q.spread == 0
                &&& (b.bids@ != Map::<int, int>::empty() && b.asks@ != Map::<int, int>::empty()) ==> exists|
                    bid: int,
                    ask: int,
                |
                    #![trigger b.bids@.contains_key(bid), b.asks@.contains_key(ask)]
                    b.bids@.contains_key(bid) && b.asks@.contains_key(ask) && (forall|k: int|
                        #[trigger] b.bids@.contains_key(k) ==> k <= bid) && (forall|k: int|
                        #[trigger] b.asks@.contains_key(k) ==> ask <= k) && q.spread == ask - bid
            },
            _ => true,
        },
{
    match book {
        None => None,
        Some(b) => {
            let last = if b.last_update_time > 0 { b.last_update_time } else { b.snapshot_time };
            let elapsed = now.saturating_sub(last);
            let data_freshness = if elapsed < 1000 {
                String::from_str("fresh")
            } else if elapsed < 5000 {
                String::from_str("stale")
            } else {
                String::from_str("outdated")
            };
            let spread = match b.spread() {
                Some(s) => s,
                None => 0,
            };
            Some(
                ConnectionQuality {
                    symbol: key.symbol.clone(),
                    data_freshness,
                    time_since_last_update_ms: elapsed,
                    orderbook_depth: b.total_levels(),
                    spread,
                },
            )
        },
    }
}

} // verus!
