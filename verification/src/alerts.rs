//! Session-scoped price alerts.
//!
//! An alert watches one symbol for the price crossing a threshold from one
//! side. Once it fires it stays triggered until the price moves back past the
//! threshold by the hysteresis (repeating alerts only); notifications are
//! rate-limited by a cooldown, and a one-shot alert notifies at most once.

use vstd::prelude::*;
use vstd::string::*;
use crate::book_side::MAX_UNITS;
use crate::text::{to_ascii_upper, upper_seq, trim, is_blank, str_eq};

verus! {

/// Most alerts a manager holds at once.
pub const MAX_ALERTS: usize = 50;

/// Cooldown given to alerts created with default options.
pub const DEFAULT_ALERT_COOLDOWN_MS: u64 = 0;

/// Hysteresis given to alerts created with default options, in percent of the threshold.
pub const DEFAULT_ALERT_HYSTERESIS_PCT: i128 = 0;

/// Re-trigger behaviour.
#[derive(Debug, Clone, Copy, PartialEq, Eq, Structural)]
pub enum AlertRepeat {
    Once,
    Repeat,
}

/// Side of the threshold the price must reach.
#[derive(Debug, Clone, Copy, PartialEq, Eq, Structural)]
pub enum AlertDirection {
    Above,
    Below,
}

/// Re-trigger and noise-control options. Prices are in units of `10^-8`.
#[derive(Debug, Clone, Copy)]
pub struct AlertOptions {
    pub repeat: AlertRepeat,
    pub cooldown_ms: u64,
    pub hysteresis: i128,
}

/// The hysteresis that default options give a threshold.
pub open spec fn default_hysteresis(threshold: i128) -> int {
    if DEFAULT_ALERT_HYSTERESIS_PCT > 0 && -MAX_UNITS < threshold < MAX_UNITS {
        threshold * DEFAULT_ALERT_HYSTERESIS_PCT / 100
    } else {
        0
    }
}

impl AlertOptions {
    /// Repeating alert, default cooldown, default hysteresis.
    pub fn default_for_threshold(threshold: i128) -> (r: Self)
        ensures
            r.repeat == AlertRepeat::Repeat,
            r.cooldown_ms == DEFAULT_ALERT_COOLDOWN_MS,
            r.hysteresis == default_hysteresis(threshold),
    {
        let hysteresis = if DEFAULT_ALERT_HYSTERESIS_PCT > 0 && -MAX_UNITS < threshold
            && threshold < MAX_UNITS {
            threshold * DEFAULT_ALERT_HYSTERESIS_PCT / 100
        } else {
            0
        };
        AlertOptions {
            repeat: AlertRepeat::Repeat,
            cooldown_ms: DEFAULT_ALERT_COOLDOWN_MS,
            hysteresis,
        }
    }
}

/// An alert definition and its state.
#[derive(Debug, Clone)]
pub struct Alert {
    pub id: u64,
    pub symbol: String,
    pub direction: AlertDirection,
    pub threshold: i128,
    pub triggered: bool,
    pub last_price: Option<i128>,
    pub created_at_ms: u64,
    pub repeat: AlertRepeat,
    pub cooldown_ms: u64,
    pub hysteresis: i128,
    pub last_notified_ms: Option<u64>,
}

/// What is reported when an alert fires.
#[derive(Debug, Clone)]
pub struct AlertTrigger {
    pub id: u64,
    pub symbol: String,
    pub direction: AlertDirection,
    pub threshold: i128,
    pub price: i128,
}

/// Why an alert was not added.
#[derive(Debug, Clone, Copy, PartialEq, Eq, Structural)]
pub enum AlertError {
    LimitReached,
    InvalidThreshold,
    InvalidHysteresis,
    EmptySymbol,
    IdsExhausted,
}

/// The text an alert error reads as.
pub open spec fn error_text(e: AlertError) -> Seq<char> {
    match e {
                AlertError::LimitReached =>
                    "Maximum alert limit (50) reached. Clear alerts before adding more."@,
                AlertError::InvalidThreshold => "Threshold must be a positive, finite number"@,
                AlertError::InvalidHysteresis => "Hysteresis must be a non-negative, finite number"@,
                AlertError::EmptySymbol => "Symbol cannot be empty"@,
                AlertError::IdsExhausted => "No alert ids are left"@,
    }
}

impl AlertError {
    pub fn message(&self) -> (r: String)
        ensures
            r@ == error_text(*self),
    {
        match self {
            AlertError::LimitReached => String::from_str(
                "Maximum alert limit (50) reached. Clear alerts before adding more.",
            ),
            AlertError::InvalidThreshold => String::from_str(
                "Threshold must be a positive, finite number",
            ),
            AlertError::InvalidHysteresis => String::from_str(
                "Hysteresis must be a non-negative, finite number",
            ),
            AlertError::EmptySymbol => String::from_str("Symbol cannot be empty"),
            AlertError::IdsExhausted => String::from_str("No alert ids are left"),
        }
    }
}

/// Whether a firing alert is allowed to notify at `now`.
pub open spec fn should_notify(a: Alert, now: u64) -> bool {
    match a.repeat {
        AlertRepeat::Once => a.last_notified_ms is None,
        AlertRepeat::Repeat => match a.last_notified_ms {
            Some(last) => (if now >= last { now - last } else { 0 }) >= a.cooldown_ms,
            None => true,
        },
    }
}

/// The price reached the threshold, coming from the other side (or with no
/// earlier price seen).
pub open spec fn crosses(a: Alert, price: i128) -> bool {
    match a.direction {
        AlertDirection::Above => price >= a.threshold && (a.last_price matches Some(prev) ==> prev
            < a.threshold),
        AlertDirection::Below => price <= a.threshold && (a.last_price matches Some(prev) ==> prev
            > a.threshold),
    }
}

/// A triggered repeating alert re-arms once the price is back past the
/// threshold by the hysteresis.
pub open spec fn rearms(a: Alert, price: i128) -> bool {
    a.repeat == AlertRepeat::Repeat && match a.direction {
        AlertDirection::Above => price <= a.threshold - a.hysteresis,
        AlertDirection::Below => price >= a.threshold + a.hysteresis,
    }
}

/// One alert's new state after a price, and whether it notifies.
pub open spec fn step_alert(a: Alert, price: i128, now: u64) -> (Alert, bool) {
    if a.triggered {
        (Alert { triggered: !rearms(a, price), last_price: Some(price), ..a }, false)
    } else if crosses(a, price) {
        let notify = should_notify(a, now);
        (
            Alert {
                triggered: true,
                last_price: Some(price),
                last_notified_ms: if notify {
                    Some(now)
                } else {
                    a.last_notified_ms
                },
                ..a
            },
            notify,
        )
    } else {
        (Alert { last_price: Some(price), ..a }, false)
    }
}

/// The alerts for `sym` that notify, in list order.
pub open spec fn fired(s: Seq<Alert>, sym: Seq<char>, price: i128, now: u64) -> Seq<Alert>
    decreases s.len(),
{
    if s.len() == 0 {
        Seq::empty()
    } else {
        let f = fired(s.drop_last(), sym, price, now);
        if s.last().symbol@ == sym && step_alert(s.last(), price, now).1 {
            f.push(s.last())
        } else {
            f
        }
    }
}

/// Every alert for `sym` advanced by the price; the others unchanged.
pub open spec fn evaluated(s: Seq<Alert>, sym: Seq<char>, price: i128, now: u64) -> Seq<Alert> {
    s.map_values(|a: Alert| if a.symbol@ == sym { step_alert(a, price, now).0 } else { a })
}

/// Some alert for `sym` changes its triggered state.
pub open spec fn any_state_change(s: Seq<Alert>, sym: Seq<char>, price: i128, now: u64) -> bool {
    exists|i: int|
        0 <= i < s.len() && (#[trigger] s[i]).symbol@ == sym && step_alert(s[i], price, now).0.triggered
            != s[i].triggered
}

pub open spec fn trigger_of(t: AlertTrigger, a: Alert, price: i128) -> bool {
    &&& t.id == a.id
    &&& t.symbol@ == a.symbol@
    &&& t.direction == a.direction
    &&& t.threshold == a.threshold
    &&& t.price == price
}

/// Ids strictly increase along the list and stay below the next id to hand out.
pub open spec fn alerts_wf(s: Seq<Alert>, next_id: u64) -> bool {
    &&& s.len() <= MAX_ALERTS
    &&& next_id >= 1
    &&& forall|i: int, j: int| 0 <= i < j < s.len() ==> (#[trigger] s[i]).id < (#[trigger] s[j]).id
    &&& forall|i: int|
        0 <= i < s.len() ==> {
            &&& (#[trigger] s[i]).id < next_id
            &&& 0 < s[i].threshold
            &&& 0 <= s[i].hysteresis
        }
}

/// The alert that a successful add creates.
pub open spec fn new_alert(
    a: Alert,
    id: u64,
    symbol: Seq<char>,
    direction: AlertDirection,
    threshold: i128,
    options: AlertOptions,
    now: u64,
) -> bool {
    &&& a.id == id
    &&& a.symbol@ == upper_seq(symbol)
    &&& a.direction == direction
    &&& a.threshold == threshold
    &&& !a.triggered
    &&& a.last_price is None
    &&& a.created_at_ms == now
    &&& a.repeat == options.repeat
    &&& a.cooldown_ms == options.cooldown_ms
    &&& a.hysteresis == options.hysteresis
    &&& a.last_notified_ms is None
}

fn copy_alert(a: &Alert) -> (r: Alert)
    ensures
        r == *a,
{
    Alert {
        id: a.id,
        symbol: a.symbol.clone(),
        direction: a.direction,
        threshold: a.threshold,
        triggered: a.triggered,
        last_price: a.last_price,
        created_at_ms: a.created_at_ms,
        repeat: a.repeat,
        cooldown_ms: a.cooldown_ms,
        hysteresis: a.hysteresis,
        last_notified_ms: a.last_notified_ms,
    }
}

/// The alerts of a session.
pub struct AlertManager {
    alerts: Vec<Alert>,
    next_id: u64,
}

impl AlertManager {
    #[verifier::type_invariant]
    closed spec fn inv(self) -> bool {
        alerts_wf(self.alerts@, self.next_id)
    }

    /// The alerts, oldest first.
    pub closed spec fn alerts(self) -> Seq<Alert> {
        self.alerts@
    }

    /// The id the next added alert gets.
    pub closed spec fn next_id(self) -> u64 {
        self.next_id
    }

    pub fn new() -> (r: Self)
        ensures
            r.alerts() == Seq::<Alert>::empty(),
            r.next_id() == 1,
    {
        AlertManager { alerts: Vec::new(), next_id: 1 }
    }

    /// Adds an alert with default options, stamped with the current time.
    pub fn add_alert(&mut self, symbol: String, direction: AlertDirection, threshold: i128) -> (r: Result<Alert, AlertError>)
        ensures
            exists|now: u64|
                add_result(
                    *old(self),
                    *final(self),
                    symbol@,
                    direction,
                    threshold,
                    default_options(threshold),
                    r,
                    now,
                ),
    {
        let options = AlertOptions::default_for_threshold(threshold);
        self.add_alert_with_options(symbol, direction, threshold, options)
    }

    /// Adds an alert, stamped with the current time.
    pub fn add_alert_with_options(
        &mut self,
        symbol: String,
        direction: AlertDirection,
        threshold: i128,
        options: AlertOptions,
    ) -> (r: Result<Alert, AlertError>)
        ensures
            exists|now: u64| add_result(*old(self), *final(self), symbol@, direction, threshold, options, r, now),
    {
        let now = crate::clock::now_ms();
        self.add_alert_with_options_at(symbol, direction, threshold, options, now)
    }

    /// Adds an alert created at `now`. Refused, in this order, when the list
    /// is full, the threshold is not positive, the hysteresis is negative,
    /// or the symbol is blank.
    pub fn add_alert_with_options_at(
        &mut self,
        symbol: String,
        direction: AlertDirection,
        threshold: i128,
        options: AlertOptions,
        now: u64,
    ) -> (r: Result<Alert, AlertError>)
        ensures
            add_result(*old(self), *final(self), symbol@, direction, threshold, options, r, now),
    {
        proof {
            use_type_invariant(&*self);
        }
        if self.alerts.len() >= MAX_ALERTS {
            return Err(AlertError::LimitReached);
        }
        if threshold <= 0 {
            return Err(AlertError::InvalidThreshold);
        }
        if options.hysteresis < 0 {
            return Err(AlertError::InvalidHysteresis);
        }
        let upper = to_ascii_upper(symbol.as_str());
        if is_blank(upper.as_str()) {
            return Err(AlertError::EmptySymbol);
        }
        if self.next_id == u64::MAX {
            return Err(AlertError::IdsExhausted);
        }
        let alert = Alert {
            id: self.next_id,
            symbol: upper,
            direction,
            threshold,
            triggered: false,
            last_price: None,
            created_at_ms: now,
            repeat: options.repeat,
            cooldown_ms: options.cooldown_ms,
            hysteresis: options.hysteresis,
            last_notified_ms: None,
        };
        let stored = copy_alert(&alert);
        let mut v: Vec<Alert> = Vec::new();
        std::mem::swap(&mut v, &mut self.alerts);
        v.push(stored);
        proof {
            let s = v@;
            assert forall|i: int, j: int| 0 <= i < j < s.len() implies (#[trigger] s[i]).id < (
            #[trigger] s[j]).id by {
                if j == s.len() - 1 {
                    assert(s[i].id < self.next_id);
                }
            }
        }
        self.next_id = self.next_id + 1;
        self.alerts = v;
        Ok(alert)
    }

    /// A copy of the current alerts, oldest first.
    pub fn list_alerts(&self) -> (r: Vec<Alert>)
        ensures
            r@ == self.alerts(),
            alerts_wf(r@, self.next_id()),
    {
        proof {
            use_type_invariant(self);
        }
        let mut out: Vec<Alert> = Vec::new();
        let mut i: usize = 0;
        while i < self.alerts.len()
            invariant
                i <= self.alerts@.len(),
                out@ == self.alerts@.subrange(0, i as int),
            decreases self.alerts@.len() - i,
        {
            out.push(copy_alert(&self.alerts[i]));
            proof {
                assert(out@ =~= self.alerts@.subrange(0, i + 1));
            }
            i = i + 1;
        }
        proof {
            assert(out@ =~= self.alerts@);
        }
        out
    }

    /// Removes the alert with this id; true when there was one.
    pub fn clear_alert(&mut self, id: u64) -> (r: bool)
        ensures
            final(self).alerts() == old(self).alerts().filter(|a: Alert| a.id != id),
            final(self).next_id() == old(self).next_id(),
            r == exists|i: int| 0 <= i < old(self).alerts().len() && (#[trigger] old(self).alerts()[i]).id == id,
    {
        proof {
            use_type_invariant(&*self);
        }
        let mut v: Vec<Alert> = Vec::new();
        std::mem::swap(&mut v, &mut self.alerts);
        let ghost s = v@;
        let mut kept: Vec<Alert> = Vec::new();
        let mut found = false;
        let mut i: usize = 0;
        proof {
            assert(s.subrange(0, 0).filter(|a: Alert| a.id != id) =~= Seq::<Alert>::empty()) by {
                reveal(Seq::filter);
            }
        }
        while i < v.len()
            invariant
                s == v@,
                i <= s.len(),
                alerts_wf(s, self.next_id),
                kept@ == s.subrange(0, i as int).filter(|a: Alert| a.id != id),
                alerts_wf(kept@, self.next_id),
                forall|k: int| 0 <= k < kept@.len() ==> exists|j: int| 0 <= j < i && #[trigger] kept@[k] == s[j],
                found == exists|j: int| 0 <= j < i && (#[trigger] s[j]).id == id,
            decreases s.len() - i,
        {
            proof {
                reveal(Seq::filter);
                assert(s.subrange(0, i + 1).drop_last() =~= s.subrange(0, i as int));
            }
            if v[i].id != id {
                let ghost before = kept@;
                kept.push(copy_alert(&v[i]));
                proof {
                    let t = kept@;
                    assert forall|a: int, b: int| 0 <= a < b < t.len() implies (#[trigger] t[a]).id < (
                    #[trigger] t[b]).id by {
                        if b == t.len() - 1 {
                            let j = choose|j: int| 0 <= j < i && #[trigger] before[a] == s[j];
                            assert(s[j].id < s[i as int].id);
                        }
                    }
                    assert forall|k: int| 0 <= k < t.len() implies exists|j: int| 0 <= j < i + 1 && #[trigger] t[k] == s[j] by {
                        if k == t.len() - 1 {
                            assert(t[k] == s[i as int]);
                        } else {
                            let j = choose|j: int| 0 <= j < i && #[trigger] before[k] == s[j];
                            assert(t[k] == s[j]);
                        }
                    }
                }
            } else {
                found = true;
            }
            i = i + 1;
        }
        proof {
            assert(s.subrange(0, s.len() as int) =~= s);
        }
        self.alerts = kept;
        found
    }

    /// Removes every alert, returning how many there were.
    pub fn clear_all(&mut self) -> (r: usize)
        ensures
            r == old(self).alerts().len(),
            final(self).alerts() == Seq::<Alert>::empty(),
            final(self).next_id() == old(self).next_id(),
    {
        proof {
            use_type_invariant(&*self);
        }
        let removed = self.alerts.len();
        self.alerts = Vec::new();
        removed
    }

    /// Checks the alerts for a symbol against a price, at the current time.
    pub fn evaluate_price(&mut self, symbol: &str, price: i128) -> (r: (Vec<AlertTrigger>, bool))
        ensures
            exists|now: u64| evaluate_result(*old(self), *final(self), symbol@, price, r, now),
            forall|k: int| 0 <= k < r.0@.len() ==> 0 < #[trigger] r.0@[k].threshold,
    {
        let now = crate::clock::now_ms();
        self.evaluate_price_at(symbol, price, now)
    }

    /// Checks the alerts for a symbol against a price seen at `now`: each of
    /// them advances by `step_alert`, the others stay, and the notifying ones
    /// are reported in list order. The flag tells whether any triggered state
    /// changed.
    pub fn evaluate_price_at(&mut self, symbol: &str, price: i128, now: u64) -> (r: (Vec<AlertTrigger>, bool))
        ensures
            evaluate_result(*old(self), *final(self), symbol@, price, r, now),
            forall|k: int| 0 <= k < r.0@.len() ==> 0 < #[trigger] r.0@[k].threshold,
    {
        proof {
            use_type_invariant(&*self);
        }
        let mut v: Vec<Alert> = Vec::new();
        std::mem::swap(&mut v, &mut self.alerts);
        let ghost s = v@;
        let ghost sym = symbol@;
        let mut out: Vec<Alert> = Vec::new();
        let mut triggers: Vec<AlertTrigger> = Vec::new();
        let mut changed = false;
        let mut i: usize = 0;
        while i < v.len()
            invariant
                s == v@,
                sym == symbol@,
                i <= s.len(),
                alerts_wf(s, self.next_id),
                out@ == evaluated(s.subrange(0, i as int), sym, price, now),
                triggers@.len() == fired(s.subrange(0, i as int), sym, price, now).len(),
                forall|k: int|
                    0 <= k < triggers@.len() ==> trigger_of(
                        #[trigger] triggers@[k],
                        fired(s.subrange(0, i as int), sym, price, now)[k],
                        price,
                    ),
                changed == any_state_change(s.subrange(0, i as int), sym, price, now),
                forall|k: int| 0 <= k < triggers@.len() ==> 0 < #[trigger] triggers@[k].threshold,
            decreases s.len() - i,
        {
            let ghost pre_sub = s.subrange(0, i as int);
            let ghost sub = s.subrange(0, i + 1);
            proof {
                assert(sub.drop_last() =~= pre_sub);
                assert(sub.last() == s[i as int]);
            }
            if str_eq(v[i].symbol.as_str(), symbol) {
                let (na, notify) = step(&v[i], price, now);
                if notify {
                    let t = AlertTrigger {
                        id: v[i].id,
                        symbol: v[i].symbol.clone(),
                        direction: v[i].direction,
                        threshold: v[i].threshold,
                        price,
                    };
                    triggers.push(t);
                }
                if na.triggered != v[i].triggered {
                    changed = true;
                }
                out.push(na);
            } else {
                out.push(copy_alert(&v[i]));
            }
            proof {
                assert(out@ =~= evaluated(sub, sym, price, now));
                assert forall|k: int|
                    0 <= k < triggers@.len() implies trigger_of(
                        #[trigger] triggers@[k],
                        fired(sub, sym, price, now)[k],
                        price,
                    ) by {
                    if k < fired(pre_sub, sym, price, now).len() {
                        assert(fired(sub, sym, price, now)[k] == fired(pre_sub, sym, price, now)[k]);
                    }
                }
                if any_state_change(sub, sym, price, now) && !any_state_change(pre_sub, sym, price, now) {
                    let j = choose|j: int|
                        0 <= j < sub.len() && (#[trigger] sub[j]).symbol@ == sym && step_alert(sub[j], price, now).0.triggered
                            != sub[j].triggered;
                    if j < i {
                        assert(pre_sub[j] == sub[j]);
                    }
                }
                if any_state_change(pre_sub, sym, price, now) {
                    let j = choose|j: int|
                        0 <= j < pre_sub.len() && (#[trigger] pre_sub[j]).symbol@ == sym && step_alert(pre_sub[j], price, now).0.triggered
                            != pre_sub[j].triggered;
                    assert(sub[j] == pre_sub[j]);
                }
            }
            i = i + 1;
        }
        proof {
            assert(s.subrange(0, s.len() as int) =~= s);
            let t = out@;
            assert forall|k: int| 0 <= k < t.len() implies #[trigger] t[k].id == s[k].id && t[k].threshold
                == s[k].threshold && t[k].hysteresis == s[k].hysteresis by {}
            assert(alerts_wf(t, self.next_id)) by {
                assert forall|a: int, b: int| 0 <= a < b < t.len() implies (#[trigger] t[a]).id < (
                #[trigger] t[b]).id by {
                    assert(s[a].id < s[b].id);
                }
            }
        }
        self.alerts = out;
        (triggers, changed)
    }
}

/// One alert advanced by a price (see `step_alert`).
fn step(a: &Alert, price: i128, now: u64) -> (r: (Alert, bool))
    requires
        0 < a.threshold,
        0 <= a.hysteresis,
    ensures
        r == step_alert(*a, price, now),
{
    let mut na = copy_alert(a);
    na.last_price = Some(price);
    if a.triggered {
        let rearm = match a.repeat {
            AlertRepeat::Repeat => match a.direction {
                AlertDirection::Above => price <= a.threshold - a.hysteresis,
                AlertDirection::Below => a.hysteresis <= i128::MAX - a.threshold && price >= a.threshold
                    + a.hysteresis,
            },
            AlertRepeat::Once => false,
        };
        if rearm {
            na.triggered = false;
        }
        (na, false)
    } else {
        let cross = match a.direction {
            AlertDirection::Above => price >= a.threshold && match a.last_price {
                Some(prev) => prev < a.threshold,
                None => true,
            },
            AlertDirection::Below => price <= a.threshold && match a.last_price {
                Some(prev) => prev > a.threshold,
                None => true,
            },
        };
        if cross {
            na.triggered = true;
            let notify = match a.repeat {
                AlertRepeat::Once => a.last_notified_ms.is_none(),
                AlertRepeat::Repeat => match a.last_notified_ms {
                    Some(last) => now.saturating_sub(last) >= a.cooldown_ms,
                    None => true,
                },
            };
            if notify {
                na.last_notified_ms = Some(now);
            }
            (na, notify)
        } else {
            (na, false)
        }
    }
}

/// Default options for a threshold (see `AlertOptions::default_for_threshold`).
pub open spec fn default_options(threshold: i128) -> AlertOptions {
    AlertOptions {
        repeat: AlertRepeat::Repeat,
        cooldown_ms: DEFAULT_ALERT_COOLDOWN_MS,
        hysteresis: default_hysteresis(threshold) as i128,
    }
}

/// What adding an alert does (see `AlertManager::add_alert_with_options_at`).
pub open spec fn add_result(
    pre: AlertManager,
    post: AlertManager,
    symbol: Seq<char>,
    direction: AlertDirection,
    threshold: i128,
    options: AlertOptions,
    r: Result<Alert, AlertError>,
    now: u64,
) -> bool {
    &&& alerts_wf(post.alerts(), post.next_id())
    &&& if pre.alerts().len() >= MAX_ALERTS {
        r == Err::<Alert, AlertError>(AlertError::LimitReached) && post.alerts() == pre.alerts()
            && post.next_id() == pre.next_id()
    } else if threshold <= 0 {
        r == Err::<Alert, AlertError>(AlertError::InvalidThreshold) && post.alerts() == pre.alerts()
            && post.next_id() == pre.next_id()
    } else if options.hysteresis < 0 {
        r == Err::<Alert, AlertError>(AlertError::InvalidHysteresis) && post.alerts()
            == pre.alerts() && post.next_id() == pre.next_id()
    } else if trim(upper_seq(symbol)).len() == 0 {
        r == Err::<Alert, AlertError>(AlertError::EmptySymbol) && post.alerts() == pre.alerts()
            && post.next_id() == pre.next_id()
    } else if pre.next_id() == u64::MAX {
        r == Err::<Alert, AlertError>(AlertError::IdsExhausted) && post.alerts() == pre.alerts()
            && post.next_id() == pre.next_id()
    } else {
        &&& r matches Ok(a)
        &&& new_alert(a, pre.next_id(), symbol, direction, threshold, options, now)
        &&& post.alerts() == pre.alerts().push(a)
        &&& post.next_id() == pre.next_id() + 1
    }
}

/// What evaluating a price does (see `AlertManager::evaluate_price_at`).
pub open spec fn evaluate_result(
    pre: AlertManager,
    post: AlertManager,
    sym: Seq<char>,
    price: i128,
    r: (Vec<AlertTrigger>, bool),
    now: u64,
) -> bool {
    let f = fired(pre.alerts(), sym, price, now);
    &&& post.next_id() == pre.next_id()
    &&& post.alerts() == evaluated(pre.alerts(), sym, price, now)
    &&& r.0@.len() == f.len()
    &&& forall|k: int| 0 <= k < f.len() ==> trigger_of(#[trigger] r.0@[k], f[k], price)
    &&& r.1 == any_state_change(pre.alerts(), sym, price, now)
}

/// An alert fires only when it is armed and the price reaches its threshold
/// from the other side; after firing it is triggered.
pub proof fn lemma_fires_only_on_crossing(a: Alert, price: i128, now: u64)
    ensures
        step_alert(a, price, now).1 ==> !a.triggered && crosses(a, price) && step_alert(
            a,
            price,
            now,
        ).0.triggered && step_alert(a, price, now).0.last_notified_ms == Some(now),
{
}

/// A repeating alert that notified at `last` notifies again only once the
/// cooldown has passed.
pub proof fn lemma_cooldown_respected(a: Alert, price: i128, now: u64, last: u64)
    requires
        a.repeat == AlertRepeat::Repeat,
        a.last_notified_ms == Some(last),
        step_alert(a, price, now).1,
    ensures
        now >= last ==> now - last >= a.cooldown_ms,
        now < last ==> a.cooldown_ms == 0,
{
}

/// A repeating alert without cooldown that has just fired fires again at
/// the next price that reaches its threshold once the price has gone back
/// past the threshold by its hysteresis in between; without such a retreat
/// (the price staying on the firing side) it does not fire again.
pub proof fn lemma_fires_again_after_retreat(
    a: Alert,
    p1: i128,
    t1: u64,
    p2: i128,
    t2: u64,
    p3: i128,
    t3: u64,
)
    requires
        a.repeat == AlertRepeat::Repeat,
        a.cooldown_ms == 0,
        a.hysteresis >= 0,
        step_alert(a, p1, t1).1,
    ensures
        ({
            let b = step_alert(a, p1, t1).0;
            let c = step_alert(b, p2, t2).0;
            match a.direction {
                AlertDirection::Above => {
                    &&& (p2 < a.threshold && p2 <= a.threshold - a.hysteresis && p3 >= a.threshold)
                        ==> step_alert(c, p3, t3).1
                    &&& p2 >= a.threshold ==> !step_alert(c, p3, t3).1
                },
                AlertDirection::Below => {
                    &&& (p2 > a.threshold && p2 >= a.threshold + a.hysteresis && p3 <= a.threshold)
                        ==> step_alert(c, p3, t3).1
                    &&& p2 <= a.threshold ==> !step_alert(c, p3, t3).1
                },
            }
        }),
{
}

/// Evaluating a price keeps the list's length, order and ids; alerts of
/// other symbols are untouched, every alert of the symbol records the
/// price, and every alert that fires belongs to the symbol and has the
/// price on or past its threshold.
pub proof fn lemma_evaluation_frame(s: Seq<Alert>, sym: Seq<char>, price: i128, now: u64)
    ensures
        evaluated(s, sym, price, now).len() == s.len(),
        forall|i: int|
            0 <= i < s.len() ==> {
                let e = #[trigger] evaluated(s, sym, price, now)[i];
                &&& e.id == s[i].id && e.symbol == s[i].symbol && e.direction == s[i].direction
                &&& e.threshold == s[i].threshold
                &&& s[i].symbol@ != sym ==> e == s[i]
                &&& s[i].symbol@ == sym ==> e.last_price == Some(price)
            },
        forall|k: int|
            0 <= k < fired(s, sym, price, now).len() ==> {
                let a = #[trigger] fired(s, sym, price, now)[k];
                &&& a.symbol@ == sym
                &&& a.direction == AlertDirection::Above ==> price >= a.threshold
                &&& a.direction == AlertDirection::Below ==> price <= a.threshold
            },
    decreases s.len(),
{
    if s.len() > 0 {
        lemma_evaluation_frame(s.drop_last(), sym, price, now);
        let f = fired(s.drop_last(), sym, price, now);
        assert forall|k: int| 0 <= k < fired(s, sym, price, now).len() implies {
            let a = #[trigger] fired(s, sym, price, now)[k];
            &&& a.symbol@ == sym
            &&& a.direction == AlertDirection::Above ==> price >= a.threshold
            &&& a.direction == AlertDirection::Below ==> price <= a.threshold
        } by {
            if k < f.len() {
                assert(fired(s, sym, price, now)[k] == f[k]);
            }
        }
    }
}

/// The alerts that fire are exactly the alerts of the symbol whose step
/// notifies: each notifying alert of the symbol is among them, and each of
/// them is such an alert of the list.
pub proof fn lemma_fired_members(s: Seq<Alert>, sym: Seq<char>, price: i128, now: u64)
    ensures
        forall|i: int|
            0 <= i < s.len() && (#[trigger] s[i]).symbol@ == sym && step_alert(s[i], price, now).1 ==> exists|k: int|
                0 <= k < fired(s, sym, price, now).len() && fired(s, sym, price, now)[k] == s[i],
        forall|k: int|
            0 <= k < fired(s, sym, price, now).len() ==> exists|i: int|
                0 <= i < s.len() && s[i] == #[trigger] fired(s, sym, price, now)[k] && s[i].symbol@ == sym
                    && step_alert(s[i], price, now).1,
    decreases s.len(),
{
    if s.len() > 0 {
        let d = s.drop_last();
        lemma_fired_members(d, sym, price, now);
        let f = fired(d, sym, price, now);
        let g = fired(s, sym, price, now);
        assert forall|i: int|
            0 <= i < s.len() && (#[trigger] s[i]).symbol@ == sym && step_alert(s[i], price, now).1 implies exists|k: int|
                0 <= k < g.len() && g[k] == s[i] by {
            if i < s.len() - 1 {
                assert(d[i] == s[i]);
                let k = choose|k: int| 0 <= k < f.len() && f[k] == d[i];
                assert(g[k] == f[k]);
            } else {
                assert(g[g.len() - 1] == s[i]);
            }
        }
        assert forall|k: int| 0 <= k < g.len() implies exists|i: int|
            0 <= i < s.len() && s[i] == #[trigger] g[k] && s[i].symbol@ == sym && step_alert(s[i], price, now).1 by {
            if k < f.len() {
                assert(g[k] == f[k]);
                let i = choose|i: int|
                    0 <= i < d.len() && d[i] == #[trigger] f[k] && d[i].symbol@ == sym && step_alert(d[i], price, now).1;
                assert(s[i] == d[i]);
            } else {
                assert(g[k] == s[s.len() - 1]);
            }
        }
    }
}

/// Re-arming over three prices at the manager: a repeating alert without
/// cooldown or hysteresis that fired at the first price fires again at the
/// third price (reaching its threshold) when the second price went back
/// past the threshold, and does not fire at the third price when the second
/// stayed on the firing side.
#[verifier::spinoff_prover]
#[verifier::rlimit(60)]
pub proof fn lemma_manager_rearms(
    m0: AlertManager,
    m1: AlertManager,
    m2: AlertManager,
    m3: AlertManager,
    sym: Seq<char>,
    p1: i128,
    p2: i128,
    p3: i128,
    r1: (Vec<AlertTrigger>, bool),
    r2: (Vec<AlertTrigger>, bool),
    r3: (Vec<AlertTrigger>, bool),
    t1: u64,
    t2: u64,
    t3: u64,
    i: int,
)
    requires
        alerts_wf(m0.alerts(), m0.next_id()),
        evaluate_result(m0, m1, sym, p1, r1, t1),
        evaluate_result(m1, m2, sym, p2, r2, t2),
        evaluate_result(m2, m3, sym, p3, r3, t3),
        0 <= i < m0.alerts().len(),
        m0.alerts()[i].symbol@ == sym,
        m0.alerts()[i].repeat == AlertRepeat::Repeat,
        m0.alerts()[i].cooldown_ms == 0,
        m0.alerts()[i].hysteresis == 0,
        step_alert(m0.alerts()[i], p1, t1).1,
    ensures
        ({
            let a = m0.alerts()[i];
            match a.direction {
                AlertDirection::Above => {
                    &&& (p2 < a.threshold && p3 >= a.threshold) ==> exists|k: int|
                        0 <= k < r3.0@.len() && (#[trigger] r3.0@[k]).id == a.id && r3.0@[k].price == p3
                            && r3.0@[k].threshold == a.threshold
                    &&& p2 >= a.threshold ==> forall|k: int| 0 <= k < r3.0@.len() ==> (#[trigger] r3.0@[k]).id != a.id
                },
                AlertDirection::Below => {
                    &&& (p2 > a.threshold && p3 <= a.threshold) ==> exists|k: int|
                        0 <= k < r3.0@.len() && (#[trigger] r3.0@[k]).id == a.id && r3.0@[k].price == p3
                            && r3.0@[k].threshold == a.threshold
                    &&& p2 <= a.threshold ==> forall|k: int| 0 <= k < r3.0@.len() ==> (#[trigger] r3.0@[k]).id != a.id
                },
            }
        }),
{
    let s0 = m0.alerts();
    let s1 = m1.alerts();
    let s2 = m2.alerts();
    let a = s0[i];
    assert(s1[i] == step_alert(a, p1, t1).0);
    assert(s2[i] == step_alert(s1[i], p2, t2).0);
    lemma_fires_again_after_retreat(a, p1, t1, p2, t2, p3, t3);
    lemma_fired_members(s2, sym, p3, t3);
    let f = fired(s2, sym, p3, t3);
    if step_alert(s2[i], p3, t3).1 {
        let k = choose|k: int| 0 <= k < f.len() && f[k] == s2[i];
        assert(trigger_of(r3.0@[k], f[k], p3));
    }
    assert forall|k: int| 0 <= k < r3.0@.len() && (#[trigger] r3.0@[k]).id == a.id implies step_alert(
        s2[i],
        p3,
        t3,
    ).1 by {
        assert(trigger_of(r3.0@[k], f[k], p3));
        let j = choose|j: int|
            0 <= j < s2.len() && s2[j] == #[trigger] f[k] && s2[j].symbol@ == sym && step_alert(s2[j], p3, t3).1;
        assert(s2[j].id == s0[j].id);
        if j != i {
            if j < i {
                assert(s0[j].id < s0[i].id);
            } else {
                assert(s0[i].id < s0[j].id);
            }
        }
    }
}

/// An alert fed a series of `(price, time)` observations: its final state and
/// how many times it notified.
pub open spec fn run_alert(a: Alert, obs: Seq<(i128, u64)>) -> (Alert, nat)
    decreases obs.len(),
{
    if obs.len() == 0 {
        (a, 0)
    } else {
        let st = step_alert(a, obs[0].0, obs[0].1);
        let rest = run_alert(st.0, obs.drop_first());
        (rest.0, rest.1 + if st.1 { 1nat } else { 0nat })
    }
}

/// A one-shot alert notifies at most once over any series of prices, and not
/// at all once it has notified.
pub proof fn lemma_once_notifies_at_most_once(a: Alert, obs: Seq<(i128, u64)>)
    requires
        a.repeat == AlertRepeat::Once,
    ensures
        run_alert(a, obs).1 <= (if a.last_notified_ms is None { 1nat } else { 0nat }),
        a.last_notified_ms is Some ==> run_alert(a, obs).0.last_notified_ms is Some,
    decreases obs.len(),
{
    if obs.len() > 0 {
        let st = step_alert(a, obs[0].0, obs[0].1);
        lemma_once_notifies_at_most_once(st.0, obs.drop_first());
    }
}

} // verus!
