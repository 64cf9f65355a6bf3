//! The session's side of price alerts: what each alert command and each
//! price does, as the lines, snapshots and notifications to hand out.

use vstd::prelude::*;
use vstd::string::*;
use crate::alerts::{Alert, AlertDirection, AlertError, AlertManager, AlertOptions, AlertRepeat, AlertTrigger,
    alerts_wf, add_result, fired, evaluated, trigger_of};
use crate::commands::{AlertAction, ClearTarget};
use crate::fixed::{decimal, format_units, format_u64, format_u128, units_shown};
use crate::notify::{Notification, SystemNotifier};

verus! {

/// The four decimal digits of `n < 10000`, with leading zeros.
pub open spec fn four_digits(n: nat) -> Seq<char> {
    let d = decimal(n);
    Seq::new((4 - d.len()) as nat, |i: int| '0') + d
}

/// `n / 10^4` with round-half-to-even, the rounding of `{:.4}`.
pub open spec fn round_to_4(n: nat) -> nat {
    let q = n / 10000;
    let r = n % 10000;
    if r > 5000 || (r == 5000 && q % 2 == 1) {
        q + 1
    } else {
        q
    }
}

/// A nonnegative value in units of `10^-8` written with four decimals.
pub open spec fn four_places(v: nat) -> Seq<char> {
    let q = round_to_4(v);
    decimal(q / 10000) + seq!['.'] + four_digits(q % 10000)
}

fn pad4(n: u64) -> (r: String)
    requires
        n < 10000,
    ensures
        r@ == four_digits(n as nat),
{
    let d = format_u64(n);
    proof {
        crate::fixed::lemma_decimal_value(n as nat);
        lemma_decimal_len_4(n as nat);
    }
    let mut s = String::new();
    let mut k: usize = d.unicode_len();
    while k < 4
        invariant
            d@ == decimal(n as nat),
            d@.len() <= k <= 4,
            s@ == Seq::new((k - d@.len()) as nat, |i: int| '0'),
        decreases 4 - k,
    {
        crate::text::push_char(&mut s, '0');
        k = k + 1;
        proof {
            assert(s@ =~= Seq::new((k - d@.len()) as nat, |i: int| '0'));
        }
    }
    s.append(d.as_str());
    s
}

proof fn lemma_decimal_len_4(n: nat)
    requires
        n < 10000,
    ensures
        decimal(n).len() <= 4,
{
    if n >= 10 {
        if n / 10 >= 10 {
            if n / 10 / 10 >= 10 {
            }
        }
    }
    reveal_with_fuel(decimal, 5);
}

/// Writes a nonnegative value with four decimals (see `four_places`).
pub fn format_four_places(v: i128) -> (r: String)
    requires
        0 <= v,
    ensures
        r@ == four_places(v as nat),
{
    let n = v as u128;
    let q0 = n / 10000;
    let rem = n % 10000;
    let q = if rem > 5000 || (rem == 5000 && q0 % 2 == 1) {
        q0 + 1
    } else {
        q0
    };
    proof {
        assert(q == round_to_4(v as nat));
    }
    let ip = q / 10000;
    let fp = (q % 10000) as u64;
    let mut s = format_u128(ip);
    s.append(".");
    let tail = pad4(fp);
    s.append(tail.as_str());
    proof {
        reveal_strlit(".");
        assert(s@ =~= decimal((q / 10000) as nat) + seq!['.'] + four_digits((q % 10000) as nat));
    }
    s
}

/// `t` is the shortest decimal text of a value in units of `10^-8` (see
/// `units_shown`).
pub open spec fn shown(v: int, t: Seq<char>) -> bool {
    units_shown(v, t)
}

/// How an alert repeats: "once", "repeat", or "repeat/<seconds>s" with a
/// cooldown.
pub open spec fn mode_text(a: Alert) -> Seq<char> {
    match a.repeat {
        AlertRepeat::Once => "once"@,
        AlertRepeat::Repeat => if a.cooldown_ms > 0 {
            "repeat/"@ + decimal((a.cooldown_ms / 1000) as nat) + "s"@
        } else {
            "repeat"@
        },
    }
}

/// "<seconds>s", or "0" without a cooldown.
pub open spec fn cooldown_text(a: Alert) -> Seq<char> {
    if a.cooldown_ms > 0 {
        decimal((a.cooldown_ms / 1000) as nat) + "s"@
    } else {
        "0"@
    }
}

/// The hysteresis with four decimals, or "0" without one.
pub open spec fn hysteresis_text(a: Alert) -> Seq<char> {
    if a.hysteresis > 0 {
        four_places(a.hysteresis as nat)
    } else {
        "0"@
    }
}

pub open spec fn direction_name(d: AlertDirection) -> Seq<char> {
    match d {
        AlertDirection::Above => "Above"@,
        AlertDirection::Below => "Below"@,
    }
}

pub open spec fn direction_word(d: AlertDirection) -> Seq<char> {
    match d {
        AlertDirection::Above => "above"@,
        AlertDirection::Below => "below"@,
    }
}

fn mode_string(a: &Alert) -> (r: String)
    ensures
        r@ == mode_text(*a),
{
    match a.repeat {
        AlertRepeat::Once => String::from_str("once"),
        AlertRepeat::Repeat => if a.cooldown_ms > 0 {
            let mut s = String::from_str("repeat/");
            s.append(format_u64(a.cooldown_ms / 1000).as_str());
            s.append("s");
            s
        } else {
            String::from_str("repeat")
        },
    }
}

fn cooldown_string(a: &Alert) -> (r: String)
    ensures
        r@ == cooldown_text(*a),
{
    if a.cooldown_ms > 0 {
        let mut s = format_u64(a.cooldown_ms / 1000);
        s.append("s");
        s
    } else {
        String::from_str("0")
    }
}

fn hysteresis_string(a: &Alert) -> (r: String)
    requires
        0 <= a.hysteresis,
    ensures
        r@ == hysteresis_text(*a),
{
    if a.hysteresis > 0 {
        format_four_places(a.hysteresis)
    } else {
        String::from_str("0")
    }
}

fn direction_string(d: AlertDirection) -> (r: &'static str)
    ensures
        r@ == direction_name(d),
{
    match d {
        AlertDirection::Above => "Above",
        AlertDirection::Below => "Below",
    }
}

/// "(mode=…, cooldown=…, hysteresis=…)" without the brackets.
pub open spec fn options_text(a: Alert) -> Seq<char> {
    "mode="@ + mode_text(a) + ", cooldown="@ + cooldown_text(a) + ", hysteresis="@ + hysteresis_text(a)
}

fn options_string(a: &Alert) -> (r: String)
    requires
        0 <= a.hysteresis,
    ensures
        r@ == options_text(*a),
{
    let mut s = String::from_str("mode=");
    s.append(mode_string(a).as_str());
    s.append(", cooldown=");
    s.append(cooldown_string(a).as_str());
    s.append(", hysteresis=");
    s.append(hysteresis_string(a).as_str());
    s
}

/// The list line of an alert:
/// "#<id> <symbol> <Above|Below> <threshold> (<armed|triggered>, <options>)".
pub open spec fn alert_line(a: Alert, threshold_text: Seq<char>) -> Seq<char> {
    "#"@ + decimal(a.id as nat) + " "@ + a.symbol@ + " "@ + direction_name(a.direction) + " "@ + threshold_text
        + " ("@ + (if a.triggered { "triggered"@ } else { "armed"@ }) + ", "@ + options_text(a) + ")"@
}

/// `line` is the list line of `a`, its threshold written as `format_units`
/// writes it.
pub open spec fn line_of(a: Alert, line: Seq<char>) -> bool {
    exists|t: Seq<char>| #[trigger] shown(a.threshold as int, t) && line == alert_line(a, t)
}

pub fn alert_entry(a: &Alert) -> (r: String)
    requires
        0 <= a.hysteresis,
    ensures
        line_of(*a, r@),
{
    let t = format_units(a.threshold);
    let mut s = String::from_str("#");
    s.append(format_u64(a.id).as_str());
    s.append(" ");
    s.append(a.symbol.as_str());
    s.append(" ");
    s.append(direction_string(a.direction));
    s.append(" ");
    s.append(t.as_str());
    s.append(" (");
    if a.triggered {
        s.append("triggered");
    } else {
        s.append("armed");
    }
    s.append(", ");
    s.append(options_string(a).as_str());
    s.append(")");
    proof {
        assert(shown(a.threshold as int, t@));
    }
    s
}

/// The lines listing `alerts`: one per alert, or "No alerts configured.".
pub open spec fn list_lines(alerts: Seq<Alert>, lines: Seq<String>) -> bool {
    &&& alerts.len() == 0 ==> lines.len() == 1 && lines[0]@ == "No alerts configured."@
    &&& alerts.len() > 0 ==> lines.len() == alerts.len() && forall|i: int|
        0 <= i < lines.len() ==> line_of(alerts[i], #[trigger] lines[i]@)
}

/// The line announcing a new alert.
pub open spec fn added_line(a: Alert, threshold_text: Seq<char>) -> Seq<char> {
    "Alert #"@ + decimal(a.id as nat) + " added: "@ + a.symbol@ + " "@ + direction_name(a.direction) + " "@
        + threshold_text + " ("@ + options_text(a) + ")"@
}

/// The line announcing a fired alert.
pub open spec fn trigger_line(t: AlertTrigger, threshold_text: Seq<char>, price_text: Seq<char>) -> Seq<char> {
    "Alert #"@ + decimal(t.id as nat) + " triggered: "@ + t.symbol@ + " "@ + direction_word(t.direction) + " "@
        + threshold_text + " (price "@ + price_text + ")"@
}

/// The desktop notification of a fired alert.
pub open spec fn trigger_notice(app: Seq<char>, t: AlertTrigger, price_text: Seq<char>, n: Notification) -> bool {
    &&& n.app_name@ == app
    &&& n.title@ == t.symbol@ + " price alert"@
    &&& n.body@ == "Price "@ + direction_word(t.direction) + " "@ + four_places(t.threshold as nat) + " (last "@
        + price_text + ")"@
}

/// `o` carries `text` to the user: a notification line with the terminal
/// interface, a console line without.
pub open spec fn message_out(o: AlertOutput, tui: bool, text: Seq<char>) -> bool {
    if tui {
        o matches AlertOutput::UiNotification(m) && m@ == text
    } else {
        o matches AlertOutput::Print(m) && m@ == text
    }
}

/// A message followed by the snapshot (terminal interface only).
pub open spec fn message_then_snapshot(out: Seq<AlertOutput>, tui: bool, text: Seq<char>, alerts: Seq<Alert>) -> bool {
    &&& out.len() == if tui { 2int } else { 1int }
    &&& message_out(out[0], tui, text)
    &&& tui ==> (out[1] matches AlertOutput::UiSnapshot(v) && v@ == alerts)
}

/// What the session hands out.
#[derive(Debug)]
pub enum AlertOutput {
    /// A line for the console, when there is no terminal interface
    Print(String),
    /// The alert list for the terminal interface
    UiList(Vec<String>),
    /// The current alerts for the terminal interface
    UiSnapshot(Vec<Alert>),
    /// A notification line for the terminal interface
    UiNotification(String),
    /// An error for the session
    Error(String),
    /// A desktop notification
    Desktop(Notification),
}

/// The session's alerts and where their notifications go.
pub struct AlertingState {
    pub manager: AlertManager,
    pub notifier: SystemNotifier,
}

impl AlertingState {
    pub fn new(app_name: &str) -> (r: Self)
        ensures
            r.manager.alerts() == Seq::<Alert>::empty(),
            r.notifier.app_name@ == app_name@,
    {
        AlertingState { manager: AlertManager::new(), notifier: SystemNotifier::new(String::from_str(app_name)) }
    }

    /// A message: a notification line with the terminal interface, a
    /// console line without.
    fn emit(out: &mut Vec<AlertOutput>, enable_tui: bool, message: String)
        ensures
            final(out)@ == old(out)@.push(
                if enable_tui {
                    AlertOutput::UiNotification(message)
                } else {
                    AlertOutput::Print(message)
                },
            ),
    {
        if enable_tui {
            out.push(AlertOutput::UiNotification(message));
        } else {
            out.push(AlertOutput::Print(message));
        }
    }

    /// The current alerts, with the terminal interface only.
    fn snapshot(&self, out: &mut Vec<AlertOutput>, enable_tui: bool)
        ensures
            !enable_tui ==> final(out)@ == old(out)@,
            forall|i: int| 0 <= i < old(out)@.len() ==> #[trigger] final(out)@[i] == old(out)@[i],
            enable_tui ==> final(out)@.len() == old(out)@.len() + 1 && final(out)@.drop_last() == old(out)@ && (
            final(out)@.last() matches AlertOutput::UiSnapshot(v) && v@ == self.manager.alerts()),
    {
        if enable_tui {
            let alerts = self.manager.list_alerts();
            out.push(AlertOutput::UiSnapshot(alerts));
            proof {
                assert(out@.drop_last() =~= old(out)@);
            }
        }
    }

    /// The list lines of all alerts, or "No alerts configured.".
    pub fn list_entries(&self) -> (r: Vec<String>)
        ensures
            list_lines(self.manager.alerts(), r@),
    {
        let alerts = self.manager.list_alerts();
        let mut entries: Vec<String> = Vec::new();
        if alerts.len() == 0 {
            entries.push(String::from_str("No alerts configured."));
            return entries;
        }
        let mut i: usize = 0;
        while i < alerts.len()
            invariant
                i <= alerts@.len(),
                alerts@ == self.manager.alerts(),
                alerts_wf(alerts@, self.manager.next_id()),
                entries@.len() == i,
                forall|j: int| 0 <= j < i ==> line_of(alerts@[j], #[trigger] entries@[j]@),
            decreases alerts@.len() - i,
        {
            let line = alert_entry(&alerts[i]);
            entries.push(line);
            proof {
                assert forall|j: int| 0 <= j < i + 1 implies line_of(alerts@[j], #[trigger] entries@[j]@) by {
                    if j < i {
                    } else {
                        assert(entries@[j] == line);
                    }
                }
            }
            i = i + 1;
        }
        entries
    }
}

} // verus!

verus! {

fn direction_word_str(d: AlertDirection) -> (r: &'static str)
    ensures
        r@ == direction_word(d),
{
    match d {
        AlertDirection::Above => "above",
        AlertDirection::Below => "below",
    }
}

impl AlertingState {
    /// Lists or clears alerts (see the clauses for each action); an add
    /// action adds with default options as `add_alert` does.
    pub fn handle_action(&mut self, action: AlertAction, enable_tui: bool) -> (r: Vec<AlertOutput>)
        ensures
            final(self).notifier == old(self).notifier,
            match action {
                AlertAction::List => {
                    &&& final(self).manager == old(self).manager
                    &&& enable_tui ==> r@.len() == 2 && (r@[0] matches AlertOutput::UiList(v) && list_lines(
                        old(self).manager.alerts(),
                        v@,
                    )) && (r@[1] matches AlertOutput::UiSnapshot(v) && v@ == old(self).manager.alerts())
                    &&& !enable_tui ==> exists|lines: Seq<String>|
                        #[trigger] list_lines(old(self).manager.alerts(), lines) && r@.len() == lines.len()
                            && forall|i: int|
                            0 <= i < lines.len() ==> (#[trigger] r@[i] matches AlertOutput::Print(m) && m@
                                == lines[i]@)
                },
                AlertAction::Clear { target: ClearTarget::All } => {
                    &&& final(self).manager.alerts() == Seq::<Alert>::empty()
                    &&& final(self).manager.next_id() == old(self).manager.next_id()
                    &&& message_then_snapshot(
                        r@,
                        enable_tui,
                        "Cleared "@ + decimal(old(self).manager.alerts().len()) + " alerts"@,
                        Seq::<Alert>::empty(),
                    )
                },
                AlertAction::Clear { target: ClearTarget::Id(id) } => {
                    &&& final(self).manager.alerts() == old(self).manager.alerts().filter(|a: Alert| a.id != id)
                    &&& final(self).manager.next_id() == old(self).manager.next_id()
                    &&& if exists|i: int|
                        0 <= i < old(self).manager.alerts().len() && (#[trigger] old(
                            self,
                        ).manager.alerts()[i]).id == id {
                        message_then_snapshot(
                            r@,
                            enable_tui,
                            "Cleared alert #"@ + decimal(id as nat),
                            final(self).manager.alerts(),
                        )
                    } else {
                        r@.len() == 1 && (r@[0] matches AlertOutput::Error(m) && m@ == "Alert #"@ + decimal(id as nat)
                            + " not found"@)
                    }
                },
                AlertAction::Add { symbol, direction, price } => exists|now: u64, res: Result<Alert, AlertError>|
                    #[trigger] add_result(
                        old(self).manager,
                        final(self).manager,
                        symbol@,
                        direction,
                        price,
                        crate::alerts::default_options(price),
                        res,
                        now,
                    ) && add_outputs(res, enable_tui, final(self).manager.alerts(), r@),
            },
    {
        match action {
            AlertAction::List => {
                let entries = self.list_entries();
                let mut out: Vec<AlertOutput> = Vec::new();
                if enable_tui {
                    let alerts = self.manager.list_alerts();
                    let ghost lines = entries@;
                    out.push(AlertOutput::UiList(entries));
                    out.push(AlertOutput::UiSnapshot(alerts));
                    proof {
                        assert(list_lines(old(self).manager.alerts(), lines));
                        assert(out@[0] matches AlertOutput::UiList(v) && v@ == lines);
                    }
                } else {
                    let ghost lines = entries@;
                    let mut i: usize = 0;
                    while i < entries.len()
                        invariant
                            i <= entries@.len(),
                            out@.len() == i,
                            forall|j: int|
                                0 <= j < i ==> (#[trigger] out@[j] matches AlertOutput::Print(m) && m@ == entries@[j]@),
                        decreases entries@.len() - i,
                    {
                        out.push(AlertOutput::Print(entries[i].clone()));
                        i = i + 1;
                    }
                    proof {
                        assert(list_lines(self.manager.alerts(), entries@));
                        assert(list_lines(old(self).manager.alerts(), entries@));
                        assert(out@.len() == entries@.len());
                        assert(forall|j: int|
                            0 <= j < entries@.len() ==> (#[trigger] out@[j] matches AlertOutput::Print(m) && m@ == entries@[j]@));
                    }
                }
                out
            },
            AlertAction::Clear { target: ClearTarget::All } => {
                let ghost before = self.manager.alerts();
                let removed = self.manager.clear_all();
                let mut message = String::from_str("Cleared ");
                message.append(format_u64(removed as u64).as_str());
                message.append(" alerts");
                proof {
                    assert(message@ =~= "Cleared "@ + decimal(before.len()) + " alerts"@);
                }
                let mut out: Vec<AlertOutput> = Vec::new();
                Self::emit(&mut out, enable_tui, message);
                self.snapshot(&mut out, enable_tui);
                out
            },
            AlertAction::Clear { target: ClearTarget::Id(id) } => {
                let mut out: Vec<AlertOutput> = Vec::new();
                if self.manager.clear_alert(id) {
                    let mut message = String::from_str("Cleared alert #");
                    message.append(format_u64(id).as_str());
                    proof {
                        assert(message@ =~= "Cleared alert #"@ + decimal(id as nat));
                    }
                    Self::emit(&mut out, enable_tui, message);
                    self.snapshot(&mut out, enable_tui);
                } else {
                    let mut message = String::from_str("Alert #");
                    message.append(format_u64(id).as_str());
                    message.append(" not found");
                    proof {
                        assert(message@ =~= "Alert #"@ + decimal(id as nat) + " not found"@);
                    }
                    out.push(AlertOutput::Error(message));
                }
                out
            },
            AlertAction::Add { symbol, direction, price } => {
                let options = AlertOptions::default_for_threshold(price);
                self.add_alert(symbol, direction, price, options, enable_tui)
            },
        }
    }

    /// Adds an alert and reports it (see `add_outputs`).
    pub fn add_alert(
        &mut self,
        symbol: String,
        direction: AlertDirection,
        price: i128,
        options: AlertOptions,
        enable_tui: bool,
    ) -> (r: Vec<AlertOutput>)
        ensures
            final(self).notifier == old(self).notifier,
            exists|now: u64, res: Result<Alert, AlertError>|
                #[trigger] add_result(old(self).manager, final(self).manager, symbol@, direction, price, options, res, now)
                    && add_outputs(res, enable_tui, final(self).manager.alerts(), r@),
    {
        let ghost pre = self.manager;
        let now = crate::clock::now_ms();
        let res = self.manager.add_alert_with_options_at(symbol, direction, price, options, now);
        let mut out: Vec<AlertOutput> = Vec::new();
        match &res {
            Ok(a) => {
                let t = format_units(a.threshold);
                let mut m = String::from_str("Alert #");
                m.append(format_u64(a.id).as_str());
                m.append(" added: ");
                m.append(a.symbol.as_str());
                m.append(" ");
                m.append(direction_string(a.direction));
                m.append(" ");
                m.append(t.as_str());
                m.append(" (");
                m.append(options_string(a).as_str());
                m.append(")");
                proof {
                    assert(shown(a.threshold as int, t@));
                    assert(m@ =~= added_line(*a, t@));
                }
                Self::emit(&mut out, enable_tui, m);
                self.snapshot(&mut out, enable_tui);
                proof {
                    assert(message_then_snapshot(out@, enable_tui, added_line(*a, t@), self.manager.alerts()));
                    assert(add_outputs(res, enable_tui, self.manager.alerts(), out@));
                }
            },
            Err(e) => {
                let mut m = String::from_str("Failed to add alert: ");
                m.append(e.message().as_str());
                out.push(AlertOutput::Error(m));
                proof {
                    assert(add_outputs(res, enable_tui, self.manager.alerts(), out@));
                }
            },
        }
        proof {
            assert(add_result(pre, self.manager, symbol@, direction, price, options, res, now));
        }
        out
    }

    /// A price for `symbol` (compared in ASCII uppercase) at time `now`:
    /// each fired alert is announced and notified on the desktop, and the
    /// snapshot follows when an alert changed state.
    pub fn evaluate_at(&mut self, symbol: &str, price: i128, enable_tui: bool, now: u64) -> (r: Vec<AlertOutput>)
        ensures
            final(self).notifier == old(self).notifier,
            exists|res: (Vec<AlertTrigger>, bool)|
                #[trigger] crate::alerts::evaluate_result(
                    old(self).manager,
                    final(self).manager,
                    crate::text::upper_seq(symbol@),
                    price,
                    res,
                    now,
                ) && evaluate_outputs(res, price, enable_tui, old(self).notifier.app_name@, final(self).manager.alerts(), r@),
    {
        let ghost pre = self.manager;
        let normalized = crate::text::to_ascii_upper(symbol);
        let res = self.manager.evaluate_price_at(normalized.as_str(), price, now);
        let ghost post_alerts = self.manager.alerts();
        let p = format_units(price);
        let mut out: Vec<AlertOutput> = Vec::new();
        let mut k: usize = 0;
        while k < res.0.len()
            invariant
                k <= res.0@.len(),
                forall|j: int| 0 <= j < res.0@.len() ==> 0 < #[trigger] res.0@[j].threshold,
                shown(price as int, p@),
                out@.len() == 2 * k,
                forall|j: int|
                    0 <= j < k ==> trigger_pair(res.0@[j], p@, enable_tui, self.notifier.app_name@, #[trigger] out@[2 * j], out@[2 * j + 1]),
            decreases res.0@.len() - k,
        {
            let t = &res.0[k];
            let th = format_units(t.threshold);
            let mut m = String::from_str("Alert #");
            m.append(format_u64(t.id).as_str());
            m.append(" triggered: ");
            m.append(t.symbol.as_str());
            m.append(" ");
            m.append(direction_word_str(t.direction));
            m.append(" ");
            m.append(th.as_str());
            m.append(" (price ");
            m.append(p.as_str());
            m.append(")");
            let mut title = t.symbol.clone();
            title.append(" price alert");
            let mut body = String::from_str("Price ");
            body.append(direction_word_str(t.direction));
            body.append(" ");
            body.append(format_four_places(t.threshold).as_str());
            body.append(" (last ");
            body.append(p.as_str());
            body.append(")");
            let ghost before = out@;
            Self::emit(&mut out, enable_tui, m);
            out.push(AlertOutput::Desktop(self.notifier.notify(title, body)));
            proof {
                assert(shown(t.threshold as int, th@));
                assert forall|j: int|
                    0 <= j < k + 1 implies trigger_pair(res.0@[j], p@, enable_tui, self.notifier.app_name@, #[trigger] out@[2 * j], out@[2 * j + 1]) by {
                    if j < k {
                        assert(out@[2 * j] == before[2 * j] && out@[2 * j + 1] == before[2 * j + 1]);
                    }
                }
            }
            k = k + 1;
        }
        let ghost pairs = out@;
        if res.1 {
            self.snapshot(&mut out, enable_tui);
        }
        proof {
            let n = res.0@.len() as int;
            assert forall|j: int|
                0 <= j < n implies trigger_pair(res.0@[j], p@, enable_tui, self.notifier.app_name@, #[trigger] out@[2 * j], out@[2 * j + 1]) by {
                assert(out@[2 * j] == pairs[2 * j] && out@[2 * j + 1] == pairs[2 * j + 1]);
            }
            assert(evaluate_outputs(res, price, enable_tui, self.notifier.app_name@, self.manager.alerts(), out@));
            assert(crate::alerts::evaluate_result(pre, self.manager, crate::text::upper_seq(symbol@), price, res, now));
        }
        out
    }
}

/// What adding an alert hands out: the announcement and the snapshot, or
/// "Failed to add alert: <reason>".
pub open spec fn add_outputs(res: Result<Alert, AlertError>, tui: bool, alerts: Seq<Alert>, out: Seq<AlertOutput>) -> bool {
    match res {
        Ok(a) => exists|t: Seq<char>|
            #[trigger] shown(a.threshold as int, t) && message_then_snapshot(out, tui, added_line(a, t), alerts),
        Err(e) => out.len() == 1 && (out[0] matches AlertOutput::Error(m) && m@ == "Failed to add alert: "@
            + crate::alerts::error_text(e)),
    }
}

/// The announcement and the desktop notification of one fired alert.
pub open spec fn trigger_pair(t: AlertTrigger, price_text: Seq<char>, tui: bool, app: Seq<char>, a: AlertOutput, b: AlertOutput) -> bool {
    &&& exists|th: Seq<char>| #[trigger] shown(t.threshold as int, th) && message_out(a, tui, trigger_line(t, th, price_text))
    &&& b matches AlertOutput::Desktop(n) && trigger_notice(app, t, price_text, n)
}

/// What a price hands out: for each fired alert its announcement and
/// desktop notification, then the snapshot when an alert changed state.
pub open spec fn evaluate_outputs(
    res: (Vec<AlertTrigger>, bool),
    price: i128,
    tui: bool,
    app: Seq<char>,
    alerts: Seq<Alert>,
    out: Seq<AlertOutput>,
) -> bool {
    let n = res.0@.len() as int;
    exists|p: Seq<char>|
        #[trigger] shown(price as int, p) && out.len() == 2 * n + (if res.1 && tui { 1int } else { 0int })
            && (forall|j: int|
            0 <= j < n ==> trigger_pair(res.0@[j], p, tui, app, #[trigger] out[2 * j], out[2 * j + 1])) && (res.1
            && tui ==> (out[2 * n] matches AlertOutput::UiSnapshot(v) && v@ == alerts))
}

} // verus!
