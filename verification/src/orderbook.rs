//! Order book kept in step with the exchange's depth stream.
//!
//! A book is seeded from a REST snapshot and then advanced by incremental
//! depth updates, following the exchange's sequencing rules: stale updates are
//! dropped, gaps are reported, a zero quantity deletes a level and a positive
//! one sets it.

use vstd::prelude::*;
use vstd::string::*;
use crate::book_side::{BookSide, MAX_UNITS};
use crate::fixed::{fixed_value, parse_fixed, format_fixed, lemma_decimal_bound, pow10, MAX_FIXED, decimal,
    format_u64};

verus! {

/// Incremental depth update (`depthUpdate` event).
#[derive(Debug)]
pub struct OrderBookUpdate {
    pub event_type: String,
    pub event_time: u64,
    pub symbol: String,
    pub first_update_id: u64,
    pub final_update_id: u64,
    /// `(price, quantity)` pairs as the exchange writes them.
    pub bids: Vec<(String, String)>,
    pub asks: Vec<(String, String)>,
}

/// Depth snapshot from the REST API.
#[derive(Debug)]
pub struct DepthSnapshot {
    pub last_update_id: u64,
    pub bids: Vec<(String, String)>,
    pub asks: Vec<(String, String)>,
}

/// Why a depth update was not applied (or not applied in full).
#[allow(inconsistent_fields)]
#[derive(Debug)]
pub enum OrderBookError {
    SequenceValidationFailed { expected: u64, actual: u64 },
    StaleMessage { update_id: u64, snapshot_id: u64 },
    PriceParseError(String),
    QuantityParseError(String),
    SymbolMismatch { expected: String, actual: String },
    InvalidUpdate(String),
}

/// How serious an order book error is.
#[derive(PartialEq, Eq, Structural, Clone, Copy, Debug)]
pub enum ErrorSeverity {
    /// Can be ignored
    Info,
    /// Logged; processing continues
    Warning,
    /// Requires action; the system can recover
    Error,
    /// Requires an immediate resync
    Critical,
}

/// Which parse of a snapshot level failed.
#[derive(PartialEq, Eq, Structural, Clone, Copy, Debug)]
pub enum SnapshotError {
    BidPrice,
    BidQuantity,
    AskPrice,
    AskQuantity,
}

pub open spec fn is_recoverable_spec(e: OrderBookError) -> bool {
    match e {
        OrderBookError::StaleMessage { .. } => true,
        OrderBookError::SymbolMismatch { .. } => true,
        _ => false,
    }
}

pub open spec fn requires_resync_spec(e: OrderBookError) -> bool {
    match e {
        OrderBookError::SequenceValidationFailed { .. } => true,
        OrderBookError::PriceParseError(_) => true,
        OrderBookError::QuantityParseError(_) => true,
        OrderBookError::InvalidUpdate(_) => true,
        _ => false,
    }
}

pub open spec fn severity_spec(e: OrderBookError) -> ErrorSeverity {
    match e {
        OrderBookError::StaleMessage { .. } => ErrorSeverity::Info,
        OrderBookError::SymbolMismatch { .. } => ErrorSeverity::Warning,
        OrderBookError::SequenceValidationFailed { .. } => ErrorSeverity::Error,
        OrderBookError::PriceParseError(_) => ErrorSeverity::Critical,
        OrderBookError::QuantityParseError(_) => ErrorSeverity::Critical,
        OrderBookError::InvalidUpdate(_) => ErrorSeverity::Error,
    }
}

/// The text an order book error reads as.
pub open spec fn error_text(e: OrderBookError) -> Seq<char> {
    match e {
        OrderBookError::SequenceValidationFailed { expected, actual } =>
            "Sequence validation failed: expected first_update_id > "@ + decimal(expected as nat)
            + ", got "@ + decimal(actual as nat),
        OrderBookError::StaleMessage { update_id, snapshot_id } => "Stale message received: update_id "@
            + decimal(update_id as nat) + " <= snapshot last_update_id "@ + decimal(snapshot_id as nat),
        OrderBookError::PriceParseError(m) => "Price parse error: "@ + m@,
        OrderBookError::QuantityParseError(m) => "Quantity parse error: "@ + m@,
        OrderBookError::SymbolMismatch { expected, actual } => "Symbol mismatch: expected "@ + expected@
            + ", got "@ + actual@,
        OrderBookError::InvalidUpdate(m) => "Invalid update: "@ + m@,
    }
}

impl OrderBookError {
    /// Whether processing can go on with later messages.
    pub fn is_recoverable(&self) -> (r: bool)
        ensures
            r == is_recoverable_spec(*self),
    {
        match self {
            OrderBookError::StaleMessage { .. } => true,
            OrderBookError::PriceParseError(_) => false,
            OrderBookError::QuantityParseError(_) => false,
            OrderBookError::SequenceValidationFailed { .. } => false,
            OrderBookError::SymbolMismatch { .. } => true,
            OrderBookError::InvalidUpdate(_) => false,
        }
    }

    /// Whether a fresh snapshot must be fetched.
    pub fn requires_resync(&self) -> (r: bool)
        ensures
            r == requires_resync_spec(*self),
    {
        match self {
            OrderBookError::SequenceValidationFailed { .. } => true,
            OrderBookError::PriceParseError(_) => true,
            OrderBookError::QuantityParseError(_) => true,
            OrderBookError::InvalidUpdate(_) => true,
            _ => false,
        }
    }

    /// Human-readable description.
    pub fn message(&self) -> (r: String)
        ensures
            r@ == error_text(*self),
    {
        match self {
            OrderBookError::SequenceValidationFailed { expected, actual } => {
                let mut m = String::from_str("Sequence validation failed: expected first_update_id > ");
                m.append(format_u64(*expected).as_str());
                m.append(", got ");
                m.append(format_u64(*actual).as_str());
                m
            },
            OrderBookError::StaleMessage { update_id, snapshot_id } => {
                let mut m = String::from_str("Stale message received: update_id ");
                m.append(format_u64(*update_id).as_str());
                m.append(" <= snapshot last_update_id ");
                m.append(format_u64(*snapshot_id).as_str());
                m
            },
            OrderBookError::PriceParseError(t) => {
                let mut m = String::from_str("Price parse error: ");
                m.append(t.as_str());
                m
            },
            OrderBookError::QuantityParseError(t) => {
                let mut m = String::from_str("Quantity parse error: ");
                m.append(t.as_str());
                m
            },
            OrderBookError::SymbolMismatch { expected, actual } => {
                let mut m = String::from_str("Symbol mismatch: expected ");
                m.append(expected.as_str());
                m.append(", got ");
                m.append(actual.as_str());
                m
            },
            OrderBookError::InvalidUpdate(t) => {
                let mut m = String::from_str("Invalid update: ");
                m.append(t.as_str());
                m
            },
        }
    }

    /// The error's severity.
    pub fn severity(&self) -> (r: ErrorSeverity)
        ensures
            r == severity_spec(*self),
    {
        match self {
            OrderBookError::StaleMessage { .. } => ErrorSeverity::Info,
            OrderBookError::SymbolMismatch { .. } => ErrorSeverity::Warning,
            OrderBookError::SequenceValidationFailed { .. } => ErrorSeverity::Error,
            OrderBookError::PriceParseError(_) => ErrorSeverity::Critical,
            OrderBookError::QuantityParseError(_) => ErrorSeverity::Critical,
            OrderBookError::InvalidUpdate(_) => ErrorSeverity::Error,
        }
    }
}

/// A level as the exchange writes it: price text and quantity text.
pub open spec fn level_text(l: (String, String)) -> (Seq<char>, Seq<char>) {
    (l.0@, l.1@)
}

pub open spec fn levels_text(v: Seq<(String, String)>) -> Seq<(Seq<char>, Seq<char>)> {
    v.map_values(|l: (String, String)| level_text(l))
}

/// Applies depth levels in order to a side. Returns the side reached and, when
/// a level cannot be applied, that level's index (the levels before it stay
/// applied, the ones after it are not looked at).
pub open spec fn apply_levels(m: Map<int, int>, lv: Seq<(Seq<char>, Seq<char>)>) -> (Map<int, int>, Option<int>)
    decreases lv.len(),
{
    if lv.len() == 0 {
        (m, None)
    } else {
        let p = fixed_value(lv[0].0);
        let q = fixed_value(lv[0].1);
        if p is Some && q is Some && q->0 >= 0 {
            let next = if q->0 == 0 {
                m.remove(p->0)
            } else {
                m.insert(p->0, q->0)
            };
            let rest = apply_levels(next, lv.drop_first());
            (rest.0, match rest.1 { Some(i) => Some(i + 1), None => None })
        } else {
            (m, Some(0))
        }
    }
}

/// Fills a side from snapshot levels in order: positive quantities are set,
/// the others skipped. The index is that of the first level that does not parse.
pub open spec fn snapshot_levels(m: Map<int, int>, lv: Seq<(Seq<char>, Seq<char>)>) -> (Map<int, int>, Option<int>)
    decreases lv.len(),
{
    if lv.len() == 0 {
        (m, None)
    } else {
        let p = fixed_value(lv[0].0);
        let q = fixed_value(lv[0].1);
        if p is Some && q is Some {
            let next = if q->0 > 0 {
                m.insert(p->0, q->0)
            } else {
                m
            };
            let rest = snapshot_levels(next, lv.drop_first());
            (rest.0, match rest.1 { Some(i) => Some(i + 1), None => None })
        } else {
            (m, Some(0))
        }
    }
}

/// The error reported for a depth level that cannot be applied.
pub open spec fn level_error(e: OrderBookError, is_bid: bool, l: (Seq<char>, Seq<char>)) -> bool {
    let side = if is_bid { "bid"@ } else { "ask"@ };
    if fixed_value(l.0) is None {
        e matches OrderBookError::PriceParseError(m) && m@ == side + " price: invalid decimal literal"@
    } else if fixed_value(l.1) is None {
        e matches OrderBookError::QuantityParseError(m) && m@ == side
            + " quantity: invalid decimal literal"@
    } else {
        e matches OrderBookError::InvalidUpdate(m) && m@ == "Invalid "@ + side + " quantity: "@ + l.1
    }
}

/// The snapshot error for a level that does not parse.
pub open spec fn snapshot_error(is_bid: bool, l: (Seq<char>, Seq<char>)) -> SnapshotError {
    if fixed_value(l.0) is None {
        if is_bid { SnapshotError::BidPrice } else { SnapshotError::AskPrice }
    } else {
        if is_bid { SnapshotError::BidQuantity } else { SnapshotError::AskQuantity }
    }
}

proof fn lemma_apply_index(m: Map<int, int>, lv: Seq<(Seq<char>, Seq<char>)>)
    ensures
        apply_levels(m, lv).1 matches Some(k) ==> 0 <= k < lv.len(),
    decreases lv.len(),
{
    if lv.len() > 0 {
        let p = fixed_value(lv[0].0);
        let q = fixed_value(lv[0].1);
        if p is Some && q is Some && q->0 >= 0 {
            let next = if q->0 == 0 {
                m.remove(p->0)
            } else {
                m.insert(p->0, q->0)
            };
            lemma_apply_index(next, lv.drop_first());
        }
    }
}

proof fn lemma_snapshot_index(m: Map<int, int>, lv: Seq<(Seq<char>, Seq<char>)>)
    ensures
        snapshot_levels(m, lv).1 matches Some(k) ==> 0 <= k < lv.len(),
    decreases lv.len(),
{
    if lv.len() > 0 {
        let p = fixed_value(lv[0].0);
        let q = fixed_value(lv[0].1);
        if p is Some && q is Some {
            let next = if q->0 > 0 {
                m.insert(p->0, q->0)
            } else {
                m
            };
            lemma_snapshot_index(next, lv.drop_first());
        }
    }
}

proof fn lemma_parsed_bounds(s: Seq<char>)
    ensures
        fixed_value(s) matches Some(v) ==> -MAX_UNITS < v < MAX_UNITS,
{
    lemma_decimal_bound(s);
    lemma_decimal_bound(s.drop_first());
    assert(pow10(28) == MAX_UNITS) by {
        reveal_with_fuel(pow10, 29);
    }
}

fn side_name(is_bid: bool) -> (r: String)
    ensures
        r@ == (if is_bid { "bid"@ } else { "ask"@ }),
{
    if is_bid {
        String::from_str("bid")
    } else {
        String::from_str("ask")
    }
}

/// Applies levels to one side, stopping at the first level that cannot be applied.
fn apply_side(side: &mut BookSide, levels: &Vec<(String, String)>, is_bid: bool) -> (r: Result<(), OrderBookError>)
    ensures
        final(side)@ == apply_levels(old(side)@, levels_text(levels@)).0,
        match apply_levels(old(side)@, levels_text(levels@)).1 {
            None => r is Ok,
            Some(i) => 0 <= i < levels@.len() && (r matches Err(e) && level_error(
                e,
                is_bid,
                level_text(levels@[i]),
            )),
        },
{
    let ghost lv = levels_text(levels@);
    let ghost goal = apply_levels(old(side)@, lv);
    let n = levels.len();
    let mut i: usize = 0;
    proof {
        assert(lv.subrange(0, n as int) =~= lv);
        lemma_apply_index(old(side)@, lv);
    }
    while i < n
        invariant
            n == levels@.len(),
            lv == levels_text(levels@),
            goal == apply_levels(old(side)@, lv),
            i <= n,
            apply_levels(side@, lv.subrange(i as int, n as int)).0 == goal.0,
            match goal.1 {
                Some(k) => i <= k && apply_levels(side@, lv.subrange(i as int, n as int)).1 == Some(k - i),
                None => apply_levels(side@, lv.subrange(i as int, n as int)).1 is None,
            },
        decreases n - i,
    {
        let ghost sub = lv.subrange(i as int, n as int);
        proof {
            assert(sub[0] == level_text(levels@[i as int]));
            assert(sub.drop_first() =~= lv.subrange(i + 1, n as int));
            let p0 = fixed_value(sub[0].0);
            let q0 = fixed_value(sub[0].1);
            if p0 is Some && q0 is Some && q0->0 >= 0 {
                let next = if q0->0 == 0 { side@.remove(p0->0) } else { side@.insert(p0->0, q0->0) };
                lemma_apply_index(next, sub.drop_first());
            }
        }
        let price_text = levels[i].0.as_str();
        let qty_text = levels[i].1.as_str();
        let p = parse_fixed(price_text);
        proof {
            lemma_parsed_bounds(levels@[i as int].0@);
            lemma_parsed_bounds(levels@[i as int].1@);
        }
        match p {
            None => {
                let msg = side_name(is_bid).concat(" price: invalid decimal literal");
                return Err(OrderBookError::PriceParseError(msg));
            },
            Some(price) => {
                let q = parse_fixed(qty_text);
                match q {
                    None => {
                        let msg = side_name(is_bid).concat(" quantity: invalid decimal literal");
                        return Err(OrderBookError::QuantityParseError(msg));
                    },
                    Some(qty) => {
                        if qty == 0 {
                            side.remove(price);
                        } else if qty > 0 {
                            side.insert(price, qty);
                        } else {
                            let mut msg = String::from_str("Invalid ");
                            msg.append(side_name(is_bid).as_str());
                            msg.append(" quantity: ");
                            msg.append(qty_text);
                            return Err(OrderBookError::InvalidUpdate(msg));
                        }
                    },
                }
            },
        }
        i = i + 1;
    }
    proof {
        assert(lv.subrange(n as int, n as int) =~= Seq::<(Seq<char>, Seq<char>)>::empty());
    }
    Ok(())
}

/// Fills one side from snapshot levels, stopping at the first that does not parse.
fn fill_side(side: &mut BookSide, levels: &Vec<(String, String)>, is_bid: bool) -> (r: Result<(), SnapshotError>)
    ensures
        final(side)@ == snapshot_levels(old(side)@, levels_text(levels@)).0,
        match snapshot_levels(old(side)@, levels_text(levels@)).1 {
            None => r is Ok,
            Some(i) => 0 <= i < levels@.len() && r == Err::<(), SnapshotError>(snapshot_error(is_bid, level_text(levels@[i]))),
        },
{
    let ghost lv = levels_text(levels@);
    let ghost goal = snapshot_levels(old(side)@, lv);
    let n = levels.len();
    let mut i: usize = 0;
    proof {
        assert(lv.subrange(0, n as int) =~= lv);
        lemma_snapshot_index(old(side)@, lv);
    }
    while i < n
        invariant
            n == levels@.len(),
            lv == levels_text(levels@),
            goal == snapshot_levels(old(side)@, lv),
            i <= n,
            snapshot_levels(side@, lv.subrange(i as int, n as int)).0 == goal.0,
            match goal.1 {
                Some(k) => i <= k && snapshot_levels(side@, lv.subrange(i as int, n as int)).1 == Some(k - i),
                None => snapshot_levels(side@, lv.subrange(i as int, n as int)).1 is None,
            },
        decreases n - i,
    {
        let ghost sub = lv.subrange(i as int, n as int);
        proof {
            assert(sub[0] == level_text(levels@[i as int]));
            assert(sub.drop_first() =~= lv.subrange(i + 1, n as int));
            let p0 = fixed_value(sub[0].0);
            let q0 = fixed_value(sub[0].1);
            if p0 is Some && q0 is Some {
                let next = if q0->0 > 0 { side@.insert(p0->0, q0->0) } else { side@ };
                lemma_snapshot_index(next, sub.drop_first());
            }
            lemma_parsed_bounds(levels@[i as int].0@);
            lemma_parsed_bounds(levels@[i as int].1@);
        }
        let p = parse_fixed(levels[i].0.as_str());
        match p {
            None => {
                return Err(if is_bid { SnapshotError::BidPrice } else { SnapshotError::AskPrice });
            },
            Some(price) => {
                let q = parse_fixed(levels[i].1.as_str());
                match q {
                    None => {
                        return Err(if is_bid { SnapshotError::BidQuantity } else { SnapshotError::AskQuantity });
                    },
                    Some(qty) => {
                        if qty > 0 {
                            side.insert(price, qty);
                        }
                    },
                }
            },
        }
        i = i + 1;
    }
    proof {
        assert(lv.subrange(n as int, n as int) =~= Seq::<(Seq<char>, Seq<char>)>::empty());
    }
    Ok(())
}

/// Order book for one symbol. Bid and ask sides map prices to quantities,
/// both in units of `10^-8`.
#[derive(Debug)]
pub struct OrderBook {
    pub symbol: String,
    pub bids: BookSide,
    pub asks: BookSide,
    pub last_update_id: u64,
    pub snapshot_time: u64,
    pub last_update_time: u64,
}

/// The parts of a book that an update or a snapshot may change are the
/// sides and the sequencing fields; this states that none of them changed.
pub open spec fn book_unchanged(a: OrderBook, b: OrderBook) -> bool {
    &&& a.symbol == b.symbol
    &&& a.bids@ == b.bids@
    &&& a.asks@ == b.asks@
    &&& a.last_update_id == b.last_update_id
    &&& a.snapshot_time == b.snapshot_time
    &&& a.last_update_time == b.last_update_time
}

impl OrderBook {
    /// An empty book for a symbol.
    pub fn new(symbol: String) -> (r: Self)
        ensures
            r.symbol == symbol,
            r.bids@ == Map::<int, int>::empty(),
            r.asks@ == Map::<int, int>::empty(),
            r.last_update_id == 0,
            r.snapshot_time == 0,
            r.last_update_time == 0,
    {
        OrderBook {
            symbol,
            bids: BookSide::new(),
            asks: BookSide::new(),
            last_update_id: 0,
            snapshot_time: 0,
            last_update_time: 0,
        }
    }

    /// The highest bid price.
    pub fn best_bid(&self) -> (r: Option<i128>)
        ensures
            match r {
                Some(p) => self.bids@.contains_key(p as int) && -MAX_UNITS < p < MAX_UNITS && forall|k: int|
                    #[trigger] self.bids@.contains_key(k) ==> k <= p,
                None => self.bids@ == Map::<int, int>::empty(),
            },
    {
        self.bids.highest()
    }

    /// The lowest ask price.
    pub fn best_ask(&self) -> (r: Option<i128>)
        ensures
            match r {
                Some(p) => self.asks@.contains_key(p as int) && -MAX_UNITS < p < MAX_UNITS && forall|k: int|
                    #[trigger] self.asks@.contains_key(k) ==> p <= k,
                None => self.asks@ == Map::<int, int>::empty(),
            },
    {
        self.asks.lowest()
    }

    /// Best ask minus best bid, when both sides have levels.
    pub fn spread(&self) -> (r: Option<i128>)
        ensures
            match r {
                Some(s) => exists|b: int, a: int|
                    #![trigger self.bids@.contains_key(b), self.asks@.contains_key(a)]
                    self.bids@.contains_key(b) && self.asks@.contains_key(a) && (forall|k: int|
                        #[trigger] self.bids@.contains_key(k) ==> k <= b) && (forall|k: int|
                        #[trigger] self.asks@.contains_key(k) ==> a <= k) && s == a - b,
                None => self.bids@ == Map::<int, int>::empty() || self.asks@ == Map::<int, int>::empty(),
            },
    {
        let b = self.best_bid();
        let a = self.best_ask();
        match (b, a) {
            (Some(bid), Some(ask)) => {
                Some(ask - bid)
            },
            _ => None,
        }
    }
}


impl OrderBook {
    /// A copy of the book.
    pub fn duplicate(&self) -> (r: Self)
        ensures
            r.symbol == self.symbol,
            r.bids@ == self.bids@,
            r.asks@ == self.asks@,
            r.bids.levels() == self.bids.levels(),
            r.asks.levels() == self.asks.levels(),
            r.last_update_id == self.last_update_id,
            r.snapshot_time == self.snapshot_time,
            r.last_update_time == self.last_update_time,
    {
        OrderBook {
            symbol: self.symbol.clone(),
            bids: self.bids.duplicate(),
            asks: self.asks.duplicate(),
            last_update_id: self.last_update_id,
            snapshot_time: self.snapshot_time,
            last_update_time: self.last_update_time,
        }
    }
}

/// What a depth update does to a book: the checks in order (symbol, stale,
/// gap), then bids and asks applied level by level; on a level that cannot be
/// applied the levels before it stay applied and the sequence fields stay.
pub open spec fn depth_update_result(
    pre: OrderBook,
    post: OrderBook,
    u: OrderBookUpdate,
    r: Result<(), OrderBookError>,
) -> bool {
    if u.symbol@ != pre.symbol@ {
        &&& book_unchanged(post, pre)
        &&& r matches Err(OrderBookError::SymbolMismatch { expected, actual })
        &&& expected@ == pre.symbol@
        &&& actual@ == u.symbol@
    } else if u.first_update_id <= pre.last_update_id {
        &&& book_unchanged(post, pre)
        &&& r matches Err(OrderBookError::StaleMessage { update_id, snapshot_id })
        &&& update_id == u.first_update_id
        &&& snapshot_id == pre.last_update_id
    } else if pre.last_update_id > 0 && u.first_update_id > pre.last_update_id + 1 {
        &&& book_unchanged(post, pre)
        &&& r matches Err(OrderBookError::SequenceValidationFailed { expected, actual })
        &&& expected == pre.last_update_id + 1
        &&& actual == u.first_update_id
    } else {
        let b = apply_levels(pre.bids@, levels_text(u.bids@));
        let a = apply_levels(pre.asks@, levels_text(u.asks@));
        &&& post.symbol == pre.symbol
        &&& post.snapshot_time == pre.snapshot_time
        &&& post.bids@ == b.0
        &&& match b.1 {
            Some(i) => {
                &&& post.asks@ == pre.asks@
                &&& post.last_update_id == pre.last_update_id
                &&& post.last_update_time == pre.last_update_time
                &&& 0 <= i < u.bids@.len()
                &&& r matches Err(e) && level_error(e, true, level_text(u.bids@[i]))
            },
            None => {
                &&& post.asks@ == a.0
                &&& match a.1 {
                    Some(i) => {
                        &&& post.last_update_id == pre.last_update_id
                        &&& post.last_update_time == pre.last_update_time
                        &&& 0 <= i < u.asks@.len()
                        &&& r matches Err(e) && level_error(e, false, level_text(u.asks@[i]))
                    },
                    None => {
                        &&& r is Ok
                        &&& post.last_update_id == u.final_update_id
                        &&& post.last_update_time == u.event_time
                    },
                }
            },
        }
    }
}

/// An update for another symbol, a stale one, or one that skips ids is
/// refused and changes nothing in the book.
pub proof fn lemma_out_of_sequence_update_changes_nothing(
    pre: OrderBook,
    post: OrderBook,
    u: OrderBookUpdate,
    r: Result<(), OrderBookError>,
)
    requires
        depth_update_result(pre, post, u, r),
        u.symbol@ != pre.symbol@ || u.first_update_id <= pre.last_update_id || (pre.last_update_id > 0
            && u.first_update_id > pre.last_update_id + 1),
    ensures
        book_unchanged(post, pre),
        r is Err,
{
}

/// An accepted update moves the book to the update's last id and event
/// time.
pub proof fn lemma_accepted_update_advances(
    pre: OrderBook,
    post: OrderBook,
    u: OrderBookUpdate,
    r: Result<(), OrderBookError>,
)
    requires
        depth_update_result(pre, post, u, r),
        r is Ok,
    ensures
        post.last_update_id == u.final_update_id,
        post.last_update_time == u.event_time,
        post.symbol == pre.symbol,
        u.first_update_id > pre.last_update_id,
{
}

/// What loading a snapshot does: both sides cleared, then refilled level by
/// level (bids first); on a level that does not parse the filling stops and
/// the sequence fields stay. On success the sequence restarts at the
/// snapshot's id and both times become `now`.
pub open spec fn snapshot_result(
    pre: OrderBook,
    post: OrderBook,
    snap: DepthSnapshot,
    now: u64,
    r: Result<(), SnapshotError>,
) -> bool {
    let b = snapshot_levels(Map::empty(), levels_text(snap.bids@));
    let a = snapshot_levels(Map::empty(), levels_text(snap.asks@));
    &&& post.symbol == pre.symbol
    &&& post.bids@ == b.0
    &&& match b.1 {
        Some(i) => {
            &&& post.asks@ == Map::<int, int>::empty()
            &&& post.last_update_id == pre.last_update_id
            &&& post.snapshot_time == pre.snapshot_time
            &&& post.last_update_time == pre.last_update_time
            &&& 0 <= i < snap.bids@.len()
            &&& r == Err::<(), SnapshotError>(snapshot_error(true, level_text(snap.bids@[i])))
        },
        None => {
            &&& post.asks@ == a.0
            &&& match a.1 {
                Some(i) => {
                    &&& post.last_update_id == pre.last_update_id
                    &&& post.snapshot_time == pre.snapshot_time
                    &&& post.last_update_time == pre.last_update_time
                    &&& 0 <= i < snap.asks@.len()
                    &&& r == Err::<(), SnapshotError>(snapshot_error(false, level_text(snap.asks@[i])))
                },
                None => {
                    &&& r is Ok
                    &&& post.last_update_id == snap.last_update_id
                    &&& post.snapshot_time == now
                    &&& post.last_update_time == now
                },
            }
        },
    }
}

/// The best bid is at or above the best ask.
pub open spec fn is_crossed(bids: Map<int, int>, asks: Map<int, int>) -> bool {
    exists|b: int, a: int|
        #![trigger bids.contains_key(b), asks.contains_key(a)]
        bids.contains_key(b) && asks.contains_key(a) && b >= a
}

impl OrderBook {
    /// Applies an incremental depth update, following the exchange's
    /// sequencing rules (see `depth_update_result`).
    pub fn apply_depth_update(&mut self, update: OrderBookUpdate) -> (r: Result<(), OrderBookError>)
        ensures
            depth_update_result(*old(self), *final(self), update, r),
    {
        if !crate::text::str_eq(update.symbol.as_str(), self.symbol.as_str()) {
            let expected = self.symbol.clone();
            return Err(OrderBookError::SymbolMismatch { expected, actual: update.symbol });
        }
        if update.first_update_id <= self.last_update_id {
            return Err(
                OrderBookError::StaleMessage {
                    update_id: update.first_update_id,
                    snapshot_id: self.last_update_id,
                },
            );
        }
        if self.last_update_id > 0 && update.first_update_id > self.last_update_id + 1 {
            return Err(
                OrderBookError::SequenceValidationFailed {
                    expected: self.last_update_id + 1,
                    actual: update.first_update_id,
                },
            );
        }
        let rb = apply_side(&mut self.bids, &update.bids, true);
        if rb.is_err() {
            return rb;
        }
        let ra = apply_side(&mut self.asks, &update.asks, false);
        if ra.is_err() {
            return ra;
        }
        self.last_update_id = update.final_update_id;
        self.last_update_time = update.event_time;
        Ok(())
    }

    /// Replaces both sides with a snapshot taken at time `now`
    /// (see `snapshot_result`).
    pub fn update_from_snapshot_at(&mut self, snapshot: DepthSnapshot, now: u64) -> (r: Result<(), SnapshotError>)
        ensures
            snapshot_result(*old(self), *final(self), snapshot, now, r),
    {
        self.bids.clear();
        self.asks.clear();
        let rb = fill_side(&mut self.bids, &snapshot.bids, true);
        if rb.is_err() {
            return rb;
        }
        let ra = fill_side(&mut self.asks, &snapshot.asks, false);
        if ra.is_err() {
            return ra;
        }
        self.last_update_id = snapshot.last_update_id;
        self.snapshot_time = now;
        self.last_update_time = now;
        Ok(())
    }

    /// Replaces both sides with a snapshot, stamped with the current time.
    pub fn update_from_snapshot(&mut self, snapshot: DepthSnapshot) -> (r: Result<(), SnapshotError>)
        ensures
            snapshot_result(*old(self), *final(self), snapshot, final(self).snapshot_time, r),
    {
        let now = crate::clock::now_ms();
        self.update_from_snapshot_at(snapshot, now)
    }

    /// Checks that the best bid is below the best ask.
    pub fn validate_consistency(&self) -> (r: Result<(), OrderBookError>)
        ensures
            r is Err <==> is_crossed(self.bids@, self.asks@),
            r matches Err(e) ==> e is InvalidUpdate,
    {
        let b = self.best_bid();
        let a = self.best_ask();
        match (b, a) {
            (Some(bid), Some(ask)) => {
                if bid >= ask {
                    let mut msg = String::from_str("Invalid spread: best_bid ");
                    msg.append(format_fixed(bid).as_str());
                    msg.append(" >= best_ask ");
                    msg.append(format_fixed(ask).as_str());
                    return Err(OrderBookError::InvalidUpdate(msg));
                }
                proof {
                    assert forall|p: int, q: int|
                        #![trigger self.bids@.contains_key(p), self.asks@.contains_key(q)]
                        self.bids@.contains_key(p) && self.asks@.contains_key(q) implies p < q by {
                    }
                }
                Ok(())
            },
            _ => {
                proof {
                    if is_crossed(self.bids@, self.asks@) {
                        let (p, q) = choose|p: int, q: int|
                            #![trigger self.bids@.contains_key(p), self.asks@.contains_key(q)]
                            self.bids@.contains_key(p) && self.asks@.contains_key(q) && p >= q;
                        assert(self.bids@.dom().contains(p));
                        assert(self.asks@.dom().contains(q));
                    }
                }
                Ok(())
            },
        }
    }

    /// Number of price levels on both sides (saturating at `usize::MAX`).
    pub fn total_levels(&self) -> (r: usize)
        ensures
            r == (if self.bids@.len() + self.asks@.len() > usize::MAX {
                usize::MAX as int
            } else {
                (self.bids@.len() + self.asks@.len()) as int
            }),
    {
        self.bids.len().saturating_add(self.asks.len())
    }

    /// Sum of all bid quantities (`None` if beyond `i128`).
    pub fn total_bid_volume(&self) -> (r: Option<i128>)
        ensures
            match r {
                Some(t) => t == crate::book_side::sum_quantities(self.bids.levels()),
                None => crate::book_side::sum_quantities(self.bids.levels()) > i128::MAX,
            },
    {
        self.bids.total_quantity()
    }

    /// Sum of all ask quantities (`None` if beyond `i128`).
    pub fn total_ask_volume(&self) -> (r: Option<i128>)
        ensures
            match r {
                Some(t) => t == crate::book_side::sum_quantities(self.asks.levels()),
                None => crate::book_side::sum_quantities(self.asks.levels()) > i128::MAX,
            },
    {
        self.asks.total_quantity()
    }

    /// Whether both sides hold at least `min_levels` levels.
    pub fn has_sufficient_depth(&self, min_levels: usize) -> (r: bool)
        ensures
            r == (self.bids@.len() >= min_levels && self.asks@.len() >= min_levels),
    {
        self.bids.len() >= min_levels && self.asks.len() >= min_levels
    }
}

impl SnapshotError {
    /// Human-readable description.
    pub fn message(&self) -> (r: String)
        ensures
            r@ == (match *self {
                SnapshotError::BidPrice => "Failed to parse bid price: invalid decimal literal"@,
                SnapshotError::BidQuantity => "Failed to parse bid quantity: invalid decimal literal"@,
                SnapshotError::AskPrice => "Failed to parse ask price: invalid decimal literal"@,
                SnapshotError::AskQuantity => "Failed to parse ask quantity: invalid decimal literal"@,
            }),
    {
        match self {
            SnapshotError::BidPrice => String::from_str("Failed to parse bid price: invalid decimal literal"),
            SnapshotError::BidQuantity => String::from_str("Failed to parse bid quantity: invalid decimal literal"),
            SnapshotError::AskPrice => String::from_str("Failed to parse ask price: invalid decimal literal"),
            SnapshotError::AskQuantity => String::from_str("Failed to parse ask quantity: invalid decimal literal"),
        }
    }
}


/// Index of the last level whose price denotes `k`.
pub open spec fn last_mention(lv: Seq<(Seq<char>, Seq<char>)>, k: int) -> Option<int>
    decreases lv.len(),
{
    if lv.len() == 0 {
        None
    } else {
        match last_mention(lv.drop_first(), k) {
            Some(i) => Some(i + 1),
            None => if fixed_value(lv[0].0) == Some(k) {
                Some(0)
            } else {
                None
            },
        }
    }
}

/// When every level of an update applies, each price takes the quantity of
/// its last mention (a zero quantity leaves the price absent) and every price
/// the update does not mention keeps its quantity.
pub proof fn lemma_update_last_mention_wins(m: Map<int, int>, lv: Seq<(Seq<char>, Seq<char>)>, k: int)
    requires
        apply_levels(m, lv).1 is None,
    ensures
        ({
            let r = apply_levels(m, lv).0;
            match last_mention(lv, k) {
                Some(i) => {
                    &&& 0 <= i < lv.len()
                    &&& fixed_value(lv[i].0) == Some(k)
                    &&& (fixed_value(lv[i].1) == Some(0int) ==> !r.contains_key(k))
                    &&& (fixed_value(lv[i].1) is Some && fixed_value(lv[i].1)->0 > 0 ==> r.contains_key(k)
                        && r[k] == fixed_value(lv[i].1)->0)
                },
                None => r.contains_key(k) == m.contains_key(k) && (m.contains_key(k) ==> r[k] == m[k]),
            }
        }),
    decreases lv.len(),
{
    if lv.len() > 0 {
        let p = fixed_value(lv[0].0);
        let q = fixed_value(lv[0].1);
        let next = if q->0 == 0 {
            m.remove(p->0)
        } else {
            m.insert(p->0, q->0)
        };
        let rest = lv.drop_first();
        lemma_update_last_mention_wins(next, rest, k);
        match last_mention(rest, k) {
            Some(j) => {
                assert(lv[j + 1] == rest[j]);
            },
            None => {},
        }
    }
}

/// Applying depth levels never leaves a zero or negative quantity on a side
/// that had none.
pub proof fn lemma_applied_quantities_positive(m: Map<int, int>, lv: Seq<(Seq<char>, Seq<char>)>)
    requires
        forall|k: int| #[trigger] m.contains_key(k) ==> m[k] > 0,
    ensures
        forall|k: int| #[trigger] apply_levels(m, lv).0.contains_key(k) ==> apply_levels(m, lv).0[k] > 0,
    decreases lv.len(),
{
    if lv.len() > 0 {
        let p = fixed_value(lv[0].0);
        let q = fixed_value(lv[0].1);
        if p is Some && q is Some && q->0 >= 0 {
            let next = if q->0 == 0 {
                m.remove(p->0)
            } else {
                m.insert(p->0, q->0)
            };
            assert forall|k: int| #[trigger] next.contains_key(k) implies next[k] > 0 by {
                if q->0 != 0 && k == p->0 {
                } else {
                    assert(m.contains_key(k));
                }
            }
            lemma_applied_quantities_positive(next, lv.drop_first());
            assert(apply_levels(m, lv).0 == apply_levels(next, lv.drop_first()).0);
        }
    }
}

} // verus!
