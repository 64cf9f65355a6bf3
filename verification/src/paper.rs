//! Paper trading: simulated market orders filled at the last price, with
//! positions, average cost, realized and unrealized profit and loss.

use vstd::prelude::*;
use vstd::string::*;
use crate::clock::now_ms;
use crate::decimal::{Dec, dec_add, dec_sub, dec_mul, dec_div, dec_le, decimal_sum,
    decimal_difference, decimal_product, decimal_quotient, value_le, parts_of, difference_keeps_sign,
    quotient_keeps_sign, product_keeps_sign};
use crate::text::str_eq;
use crate::feed::MarketEvent;
use crate::decimal::MAX_MANTISSA;

verus! {

/// Orders kept in the history.
pub const ORDER_HISTORY_CAPACITY: usize = 100;

/// Order direction.
#[derive(Debug, Clone, Copy, PartialEq, Eq, Structural)]
pub enum OrderSide {
    Buy,
    Sell,
}

impl OrderSide {
    /// "BUY" or "SELL".
    pub fn label(&self) -> (r: &'static str)
        ensures
            r@ == (match *self {
                OrderSide::Buy => "BUY"@,
                OrderSide::Sell => "SELL"@,
            }),
    {
        match self {
            OrderSide::Buy => "BUY",
            OrderSide::Sell => "SELL",
        }
    }
}

/// Order status.
#[derive(Debug, Clone, Copy, PartialEq, Eq, Structural)]
pub enum OrderStatus {
    Pending,
    Filled,
    Cancelled,
}

impl OrderStatus {
    /// "PENDING", "FILLED" or "CANCELLED".
    pub fn label(&self) -> (r: &'static str)
        ensures
            r@ == (match *self {
                OrderStatus::Pending => "PENDING"@,
                OrderStatus::Filled => "FILLED"@,
                OrderStatus::Cancelled => "CANCELLED"@,
            }),
    {
        match self {
            OrderStatus::Pending => "PENDING",
            OrderStatus::Filled => "FILLED",
            OrderStatus::Cancelled => "CANCELLED",
        }
    }
}

/// A simulated order.
#[derive(Debug, Clone)]
pub struct PaperOrder {
    pub id: u64,
    pub symbol: String,
    pub side: OrderSide,
    pub quantity: Dec,
    pub fill_price: Dec,
    pub status: OrderStatus,
    /// Creation time, milliseconds since the Unix epoch
    pub created_at: u64,
    pub filled_at: Option<u64>,
}

impl PaperOrder {
    /// A pending order created at `now`, with fill price zero.
    pub fn new_at(id: u64, symbol: String, side: OrderSide, quantity: Dec, now: u64) -> (r: Self)
        ensures
            r.id == id && r.symbol == symbol && r.side == side && r.quantity@ == quantity@,
            r.fill_price@ == (0int, 0nat),
            r.status == OrderStatus::Pending,
            r.created_at == now,
            r.filled_at is None,
    {
        PaperOrder {
            id,
            symbol,
            side,
            quantity,
            fill_price: Dec::zero(),
            status: OrderStatus::Pending,
            created_at: now,
            filled_at: None,
        }
    }

    /// A pending order created now.
    pub fn new(id: u64, symbol: String, side: OrderSide, quantity: Dec) -> (r: Self)
        ensures
            r.id == id && r.symbol == symbol && r.side == side && r.quantity@ == quantity@,
            r.fill_price@ == (0int, 0nat),
            r.status == OrderStatus::Pending,
            r.filled_at is None,
    {
        Self::new_at(id, symbol, side, quantity, now_ms())
    }

    /// An order filled at `price` at time `now`.
    pub fn new_filled_at(id: u64, symbol: String, side: OrderSide, quantity: Dec, price: Dec, now: u64) -> (r:
        Self)
        ensures
            r.id == id && r.symbol == symbol && r.side == side && r.quantity@ == quantity@,
            r.fill_price@ == price@,
            r.status == OrderStatus::Filled,
            r.created_at == now,
            r.filled_at == Some(now),
    {
        PaperOrder {
            id,
            symbol,
            side,
            quantity,
            fill_price: price,
            status: OrderStatus::Filled,
            created_at: now,
            filled_at: Some(now),
        }
    }

    /// An order filled now.
    pub fn new_filled(id: u64, symbol: String, side: OrderSide, quantity: Dec, price: Dec) -> (r: Self)
        ensures
            r.id == id && r.symbol == symbol && r.side == side && r.quantity@ == quantity@,
            r.fill_price@ == price@,
            r.status == OrderStatus::Filled,
            r.filled_at == Some(r.created_at),
    {
        Self::new_filled_at(id, symbol, side, quantity, price, now_ms())
    }

    /// Quantity times fill price (`None` on overflow).
    pub fn total_value(&self) -> (r: Option<Dec>)
        ensures
            parts_of(r) == decimal_product(self.quantity@, self.fill_price@),
    {
        dec_mul(self.quantity, self.fill_price)
    }

    /// A copy of the order.
    pub fn duplicate(&self) -> (r: Self)
        ensures
            r.id == self.id && r.symbol == self.symbol && r.side == self.side && r.quantity@ == self.quantity@
                && r.fill_price@ == self.fill_price@ && r.status == self.status && r.created_at
                == self.created_at && r.filled_at == self.filled_at,
    {
        PaperOrder {
            id: self.id,
            symbol: self.symbol.clone(),
            side: self.side,
            quantity: self.quantity,
            fill_price: self.fill_price,
            status: self.status,
            created_at: self.created_at,
            filled_at: self.filled_at,
        }
    }
}

/// A decimal computation overflowed.
#[derive(Debug, Clone, Copy, PartialEq, Eq, Structural)]
pub struct DecimalOverflow;

/// Unrealized profit and loss of `qty` held at average cost `avg` when the
/// price is `cur`: `(cur - avg) * qty` and `(cur - avg) / avg * 100`; both
/// zero when nothing is held or the cost is zero; `None` on overflow.
pub open spec fn pnl_parts(qty: (int, nat), avg: (int, nat), cur: (int, nat)) -> Option<((int, nat), (int, nat))> {
    if qty.0 == 0 || avg.0 == 0 {
        Some(((0, 0), (0, 0)))
    } else {
        match decimal_difference(cur, avg) {
            Some(d) => match decimal_product(d, qty) {
                Some(p) => match decimal_quotient(d, avg) {
                    Some(q) => match decimal_product(q, (100, 0)) {
                        Some(pct) => Some((p, pct)),
                        None => None,
                    },
                    None => None,
                },
                None => None,
            },
            None => None,
        }
    }
}

/// The law of marking to market: for a held position bought at a positive
/// average cost, the PnL percentage moves with the price: at or above zero
/// when the price is above cost, at or below zero when below, zero at cost
/// (the percentage is `(price - cost) / cost * 100`; a tiny difference may
/// round to zero). For a long position the PnL has the same sign.
pub open spec fn pnl_follows_price(
    qty: (int, nat),
    avg: (int, nat),
    cur: (int, nat),
    pnl: (int, nat),
    pct: (int, nat),
) -> bool {
    &&& !value_le(cur, avg) ==> pct.0 >= 0
    &&& !value_le(avg, cur) ==> pct.0 <= 0
    &&& value_le(cur, avg) && value_le(avg, cur) ==> pct.0 == 0 && pnl.0 == 0
    &&& qty.0 > 0 && !value_le(cur, avg) ==> pnl.0 >= 0
    &&& qty.0 > 0 && !value_le(avg, cur) ==> pnl.0 <= 0
}

/// Marking to market moves with the price: given that rust_decimal's
/// subtraction, division and multiplication keep signs as they state (see
/// `difference_keeps_sign` and its kin), the PnL of a position held at a
/// positive average cost is at or above zero when the price is above cost,
/// at or below zero when below, and zero at cost; the percentage is
/// `(price - cost) / cost * 100`.
pub proof fn lemma_pnl_follows_price(
    qty: (int, nat),
    avg: (int, nat),
    cur: (int, nat),
    pnl: (int, nat),
    pct: (int, nat),
)
    requires
        forall|a: (int, nat), b: (int, nat)| #[trigger] difference_keeps_sign(a, b),
        forall|a: (int, nat), b: (int, nat)| #[trigger] quotient_keeps_sign(a, b),
        forall|a: (int, nat), b: (int, nat)| #[trigger] product_keeps_sign(a, b),
        pnl_parts(qty, avg, cur) == Some((pnl, pct)),
        qty.0 != 0,
        avg.0 > 0,
    ensures
        pnl_follows_price(qty, avg, cur, pnl, pct),
{
    let d = decimal_difference(cur, avg)->0;
    let q = decimal_quotient(d, avg)->0;
    assert(difference_keeps_sign(cur, avg));
    assert(quotient_keeps_sign(d, avg));
    assert(product_keeps_sign(q, (100, 0)));
    assert(product_keeps_sign(d, qty));
}

/// A holding of one symbol.
#[derive(Debug, Clone)]
pub struct PaperPosition {
    pub symbol: String,
    /// Quantity held
    pub quantity: Dec,
    /// Average cost per unit
    pub avg_cost: Dec,
    /// Latest price
    pub current_price: Dec,
    pub unrealized_pnl: Dec,
    pub unrealized_pnl_pct: Dec,
}

/// A position as plain values: symbol, quantity, average cost, price,
/// unrealized PnL and its percentage.
pub open spec fn position_view(p: PaperPosition) -> (Seq<char>, (int, nat), (int, nat), (int, nat), (int, nat), (int, nat)) {
    (p.symbol@, p.quantity@, p.avg_cost@, p.current_price@, p.unrealized_pnl@, p.unrealized_pnl_pct@)
}

/// The position with quantity, cost and price set and its PnL recomputed.
pub open spec fn repriced(
    symbol: Seq<char>,
    qty: (int, nat),
    avg: (int, nat),
    cur: (int, nat),
) -> Option<(Seq<char>, (int, nat), (int, nat), (int, nat), (int, nat), (int, nat))> {
    match pnl_parts(qty, avg, cur) {
        Some((pnl, pct)) => Some((symbol, qty, avg, cur, pnl, pct)),
        None => None,
    }
}

/// What buying `q` at `p` makes of a position (`None` on overflow): the
/// quantity grows by `q`, the average cost becomes the total cost over the
/// new quantity, the price becomes `p`. A quantity that is zero or below
/// changes nothing.
pub open spec fn added(
    v: (Seq<char>, (int, nat), (int, nat), (int, nat), (int, nat), (int, nat)),
    q: (int, nat),
    p: (int, nat),
) -> Option<(Seq<char>, (int, nat), (int, nat), (int, nat), (int, nat), (int, nat))> {
    if q.0 <= 0 {
        Some(v)
    } else {
        let total = match (decimal_product(v.2, v.1), decimal_product(p, q)) {
            (Some(a), Some(b)) => decimal_sum(a, b),
            _ => None,
        };
        match (total, decimal_sum(v.1, q)) {
            (Some(t), Some(nq)) => {
                let avg = if nq.0 != 0 { decimal_quotient(t, nq) } else { Some(v.2) };
                match avg {
                    Some(a) => repriced(v.0, nq, a, p),
                    None => None,
                }
            },
            _ => None,
        }
    }
}

/// The smaller of two decimals, the first when they are equal.
pub open spec fn dec_min(a: (int, nat), b: (int, nat)) -> (int, nat) {
    if value_le(a, b) { a } else { b }
}

/// What selling `q` at `p` makes of a position, and the realized PnL
/// (`None` on overflow): at most the held quantity is sold, realizing
/// `(p - avg) * sold`; an emptied position's average cost becomes zero.
/// A quantity that is zero or below, or an empty position, changes nothing
/// and realizes zero.
pub open spec fn reduced(
    v: (Seq<char>, (int, nat), (int, nat), (int, nat), (int, nat), (int, nat)),
    q: (int, nat),
    p: (int, nat),
) -> Option<((Seq<char>, (int, nat), (int, nat), (int, nat), (int, nat), (int, nat)), (int, nat))> {
    if q.0 <= 0 || v.1.0 == 0 {
        Some((v, (0, 0)))
    } else {
        let sold = dec_min(q, v.1);
        match decimal_difference(p, v.2) {
            Some(d) => match decimal_product(d, sold) {
                Some(realized) => match decimal_difference(v.1, sold) {
                    Some(nq) => {
                        let avg = if nq.0 == 0 { (0int, 0nat) } else { v.2 };
                        match repriced(v.0, nq, avg, p) {
                            Some(nv) => Some((nv, realized)),
                            None => None,
                        }
                    },
                    None => None,
                },
                None => None,
            },
            None => None,
        }
    }
}

fn pnl(qty: Dec, avg: Dec, cur: Dec) -> (r: Result<(Dec, Dec), DecimalOverflow>)
    ensures
        match r {
            Ok((a, b)) => pnl_parts(qty@, avg@, cur@) == Some((a@, b@)),
            Err(_) => pnl_parts(qty@, avg@, cur@) is None,
        },
        qty@.0 != 0 && avg@.0 > 0 ==> (r matches Ok((a, b)) ==> pnl_follows_price(qty@, avg@, cur@, a@, b@)),
{
    if qty.is_zero() || avg.is_zero() {
        return Ok((Dec::zero(), Dec::zero()));
    }
    let d = match dec_sub(cur, avg) {
        Some(d) => d,
        None => return Err(DecimalOverflow),
    };
    let p = match dec_mul(d, qty) {
        Some(p) => p,
        None => return Err(DecimalOverflow),
    };
    let q = match dec_div(d, avg) {
        Some(q) => q,
        None => return Err(DecimalOverflow),
    };
    let hundred = match Dec::from_parts(100, 0) {
        Some(h) => h,
        None => return Err(DecimalOverflow),
    };
    let pct = match dec_mul(q, hundred) {
        Some(x) => x,
        None => return Err(DecimalOverflow),
    };
    Ok((p, pct))
}

impl PaperPosition {
    /// An empty position.
    pub fn new(symbol: &str) -> (r: Self)
        ensures
            position_view(r) == (symbol@, (0int, 0nat), (0int, 0nat), (0int, 0nat), (0int, 0nat), (0int, 0nat)),
    {
        PaperPosition {
            symbol: String::from_str(symbol),
            quantity: Dec::zero(),
            avg_cost: Dec::zero(),
            current_price: Dec::zero(),
            unrealized_pnl: Dec::zero(),
            unrealized_pnl_pct: Dec::zero(),
        }
    }

    /// A copy of the position.
    pub fn duplicate(&self) -> (r: Self)
        ensures
            position_view(r) == position_view(*self),
            r.symbol == self.symbol,
    {
        PaperPosition {
            symbol: self.symbol.clone(),
            quantity: self.quantity,
            avg_cost: self.avg_cost,
            current_price: self.current_price,
            unrealized_pnl: self.unrealized_pnl,
            unrealized_pnl_pct: self.unrealized_pnl_pct,
        }
    }

    /// Sets the price and recomputes the PnL; on overflow nothing changes.
    pub fn update_price(&mut self, price: Dec) -> (r: Result<(), DecimalOverflow>)
        ensures
            match repriced(old(self).symbol@, old(self).quantity@, old(self).avg_cost@, price@) {
                Some(v) => r is Ok && position_view(*final(self)) == v,
                None => r is Err && position_view(*final(self)) == position_view(*old(self)),
            },
            final(self).symbol == old(self).symbol,
            r is Ok && old(self).quantity@.0 != 0 && old(self).avg_cost@.0 > 0 ==> pnl_follows_price(
                old(self).quantity@,
                old(self).avg_cost@,
                price@,
                final(self).unrealized_pnl@,
                final(self).unrealized_pnl_pct@,
            ),
    {
        let (p, pct) = match pnl(self.quantity, self.avg_cost, price) {
            Ok(x) => x,
            Err(e) => return Err(e),
        };
        self.current_price = price;
        self.unrealized_pnl = p;
        self.unrealized_pnl_pct = pct;
        Ok(())
    }

    /// Buys `quantity` at `price` (see `added`); on overflow nothing changes.
    pub fn add(&mut self, quantity: Dec, price: Dec) -> (r: Result<(), DecimalOverflow>)
        ensures
            match added(position_view(*old(self)), quantity@, price@) {
                Some(v) => r is Ok && position_view(*final(self)) == v,
                None => r is Err && position_view(*final(self)) == position_view(*old(self)),
            },
            final(self).symbol == old(self).symbol,
    {
        if quantity.is_zero() || quantity.is_negative() {
            return Ok(());
        }
        let a = match dec_mul(self.avg_cost, self.quantity) {
            Some(a) => a,
            None => return Err(DecimalOverflow),
        };
        let b = match dec_mul(price, quantity) {
            Some(b) => b,
            None => return Err(DecimalOverflow),
        };
        let total = match dec_add(a, b) {
            Some(t) => t,
            None => return Err(DecimalOverflow),
        };
        let nq = match dec_add(self.quantity, quantity) {
            Some(n) => n,
            None => return Err(DecimalOverflow),
        };
        let avg = if !nq.is_zero() {
            match dec_div(total, nq) {
                Some(x) => x,
                None => return Err(DecimalOverflow),
            }
        } else {
            self.avg_cost
        };
        let (p, pct) = match pnl(nq, avg, price) {
            Ok(x) => x,
            Err(e) => return Err(e),
        };
        self.quantity = nq;
        self.avg_cost = avg;
        self.current_price = price;
        self.unrealized_pnl = p;
        self.unrealized_pnl_pct = pct;
        Ok(())
    }

    /// Sells up to `quantity` at `price` and returns the realized PnL (see
    /// `reduced`); on overflow nothing changes.
    pub fn reduce(&mut self, quantity: Dec, price: Dec) -> (r: Result<Dec, DecimalOverflow>)
        ensures
            match reduced(position_view(*old(self)), quantity@, price@) {
                Some((v, realized)) => r matches Ok(x) && x@ == realized && position_view(*final(self)) == v,
                None => r is Err && position_view(*final(self)) == position_view(*old(self)),
            },
            final(self).symbol == old(self).symbol,
    {
        if quantity.is_zero() || quantity.is_negative() || self.quantity.is_zero() {
            return Ok(Dec::zero());
        }
        let sold = if dec_le(quantity, self.quantity) {
            quantity
        } else {
            self.quantity
        };
        let d = match dec_sub(price, self.avg_cost) {
            Some(d) => d,
            None => return Err(DecimalOverflow),
        };
        let realized = match dec_mul(d, sold) {
            Some(x) => x,
            None => return Err(DecimalOverflow),
        };
        let nq = match dec_sub(self.quantity, sold) {
            Some(n) => n,
            None => return Err(DecimalOverflow),
        };
        let avg = if nq.is_zero() {
            Dec::zero()
        } else {
            self.avg_cost
        };
        let (p, pct) = match pnl(nq, avg, price) {
            Ok(x) => x,
            Err(e) => return Err(e),
        };
        self.quantity = nq;
        self.avg_cost = avg;
        self.current_price = price;
        self.unrealized_pnl = p;
        self.unrealized_pnl_pct = pct;
        Ok(realized)
    }

    /// Whether nothing is held.
    pub fn is_empty(&self) -> (r: bool)
        ensures
            r == (self.quantity@.0 == 0),
    {
        self.quantity.is_zero()
    }

    /// Quantity times price (`None` on overflow).
    pub fn market_value(&self) -> (r: Option<Dec>)
        ensures
            parts_of(r) == decimal_product(self.quantity@, self.current_price@),
    {
        dec_mul(self.quantity, self.current_price)
    }

    /// Quantity times average cost (`None` on overflow).
    pub fn cost_basis(&self) -> (r: Option<Dec>)
        ensures
            parts_of(r) == decimal_product(self.quantity@, self.avg_cost@),
    {
        dec_mul(self.quantity, self.avg_cost)
    }
}

} // verus!

verus! {

/// A position as plain values (see `position_view`).
pub type PositionView = (Seq<char>, (int, nat), (int, nat), (int, nat), (int, nat), (int, nat));

/// An order as plain values: id, symbol, side, quantity, fill price,
/// status, creation time and fill time.
pub open spec fn order_view(o: PaperOrder) -> (u64, Seq<char>, OrderSide, (int, nat), (int, nat), OrderStatus, u64, Option<u64>) {
    (o.id, o.symbol@, o.side, o.quantity@, o.fill_price@, o.status, o.created_at, o.filled_at)
}

pub open spec fn positions_view(s: Seq<PaperPosition>) -> Seq<PositionView> {
    s.map_values(|p: PaperPosition| position_view(p))
}

pub open spec fn orders_view(
    s: Seq<PaperOrder>,
) -> Seq<(u64, Seq<char>, OrderSide, (int, nat), (int, nat), OrderStatus, u64, Option<u64>)> {
    s.map_values(|o: PaperOrder| order_view(o))
}

/// Index of the first position of `symbol`, or -1.
pub open spec fn symbol_index(s: Seq<PositionView>, symbol: Seq<char>) -> int
    decreases s.len(),
{
    if s.len() == 0 {
        -1
    } else {
        let p = symbol_index(s.drop_last(), symbol);
        if p >= 0 {
            p
        } else if s.last().0 == symbol {
            s.len() - 1
        } else {
            -1
        }
    }
}

pub proof fn lemma_symbol_index(s: Seq<PositionView>, symbol: Seq<char>)
    ensures
        -1 <= symbol_index(s, symbol) < s.len(),
        symbol_index(s, symbol) >= 0 ==> s[symbol_index(s, symbol)].0 == symbol,
        symbol_index(s, symbol) == -1 <==> forall|i: int| 0 <= i < s.len() ==> #[trigger] s[i].0 != symbol,
    decreases s.len(),
{
    if s.len() > 0 {
        lemma_symbol_index(s.drop_last(), symbol);
        assert forall|i: int| 0 <= i < s.len() - 1 implies #[trigger] s[i] == s.drop_last()[i] by {}
    }
}

/// Each symbol at most once.
pub open spec fn symbols_distinct(s: Seq<PositionView>) -> bool {
    forall|i: int, j: int| 0 <= i < j < s.len() ==> (#[trigger] s[i]).0 != (#[trigger] s[j]).0
}

/// An empty position of `symbol`.
pub open spec fn empty_position(symbol: Seq<char>) -> PositionView {
    (symbol, (0, 0), (0, 0), (0, 0), (0, 0), (0, 0))
}

/// The positions with one for `symbol` (appended empty when there is
/// none), and its index.
pub open spec fn with_position(s: Seq<PositionView>, symbol: Seq<char>) -> (Seq<PositionView>, int) {
    let i = symbol_index(s, symbol);
    if i >= 0 {
        (s, i)
    } else {
        (s.push(empty_position(symbol)), s.len() as int)
    }
}

/// The history after an order is added: the oldest beyond the capacity
/// dropped.
pub open spec fn capped<A>(s: Seq<A>) -> Seq<A> {
    if s.len() > ORDER_HISTORY_CAPACITY {
        s.subrange(s.len() - ORDER_HISTORY_CAPACITY, s.len() as int)
    } else {
        s
    }
}

/// Sum, in order and starting from zero, of the PnL of each position
/// (`None` on overflow).
pub open spec fn pnl_total(s: Seq<PositionView>) -> Option<(int, nat)>
    decreases s.len(),
{
    if s.len() == 0 {
        Some((0, 0))
    } else {
        match pnl_total(s.drop_last()) {
            Some(acc) => decimal_sum(acc, s.last().4),
            None => None,
        }
    }
}

/// Sum, in order and starting from zero, of quantity times the second
/// factor (`price` true: the price; false: the average cost).
pub open spec fn value_total(s: Seq<PositionView>, price: bool) -> Option<(int, nat)>
    decreases s.len(),
{
    if s.len() == 0 {
        Some((0, 0))
    } else {
        match value_total(s.drop_last(), price) {
            Some(acc) => match decimal_product(s.last().1, if price { s.last().3 } else { s.last().2 }) {
                Some(v) => decimal_sum(acc, v),
                None => None,
            },
            None => None,
        }
    }
}

/// How many positions hold something.
pub open spec fn open_count(s: Seq<PositionView>) -> nat
    decreases s.len(),
{
    if s.len() == 0 {
        0
    } else {
        open_count(s.drop_last()) + if s.last().1.0 != 0 { 1nat } else { 0nat }
    }
}

/// All positions, all orders, and the realized PnL.
#[derive(Debug)]
pub struct PaperPortfolio {
    positions: Vec<PaperPosition>,
    order_history: Vec<PaperOrder>,
    next_order_id: u64,
    realized_pnl: Dec,
}

impl PaperPortfolio {
    #[verifier::type_invariant]
    closed spec fn inv(self) -> bool {
        &&& symbols_distinct(positions_view(self.positions@))
        &&& self.order_history@.len() <= ORDER_HISTORY_CAPACITY
    }

    pub closed spec fn positions_spec(self) -> Seq<PositionView> {
        positions_view(self.positions@)
    }

    pub closed spec fn history_spec(
        self,
    ) -> Seq<(u64, Seq<char>, OrderSide, (int, nat), (int, nat), OrderStatus, u64, Option<u64>)> {
        orders_view(self.order_history@)
    }

    pub closed spec fn next_id_spec(self) -> u64 {
        self.next_order_id
    }

    pub closed spec fn realized_spec(self) -> (int, nat) {
        self.realized_pnl@
    }

    /// An empty portfolio; order ids start at 1.
    pub fn new() -> (r: Self)
        ensures
            r.positions_spec() == Seq::<PositionView>::empty(),
            r.history_spec().len() == 0,
            r.next_id_spec() == 1,
            r.realized_spec() == (0int, 0nat),
    {
        let r = PaperPortfolio {
            positions: Vec::new(),
            order_history: Vec::new(),
            next_order_id: 1,
            realized_pnl: Dec::zero(),
        };
        proof {
            assert(positions_view(r.positions@) =~= Seq::<PositionView>::empty());
        }
        r
    }

    /// The positions, in the order they were opened.
    pub fn positions(&self) -> (r: &Vec<PaperPosition>)
        ensures
            positions_view(r@) == self.positions_spec(),
    {
        &self.positions
    }

    /// The orders, oldest first.
    pub fn order_history(&self) -> (r: &Vec<PaperOrder>)
        ensures
            orders_view(r@) == self.history_spec(),
    {
        &self.order_history
    }

    pub fn realized_pnl(&self) -> (r: Dec)
        ensures
            r@ == self.realized_spec(),
    {
        self.realized_pnl
    }

    /// Hands out the next order id.
    pub fn next_order_id(&mut self) -> (r: u64)
        requires
            old(self).next_id_spec() < u64::MAX,
        ensures
            r == old(self).next_id_spec(),
            final(self).next_id_spec() == old(self).next_id_spec() + 1,
            final(self).positions_spec() == old(self).positions_spec(),
            final(self).history_spec() == old(self).history_spec(),
            final(self).realized_spec() == old(self).realized_spec(),
    {
        proof {
            use_type_invariant(&*self);
        }
        let id = self.next_order_id;
        self.next_order_id = id + 1;
        id
    }

    fn find(&self, symbol: &str) -> (r: Option<usize>)
        ensures
            match r {
                Some(i) => i == symbol_index(self.positions_spec(), symbol@),
                None => symbol_index(self.positions_spec(), symbol@) == -1,
            },
    {
        let ghost s = self.positions_spec();
        let mut i: usize = 0;
        while i < self.positions.len()
            invariant
                i <= self.positions@.len(),
                s == positions_view(self.positions@),
                symbol_index(s.subrange(0, i as int), symbol@) == -1,
            decreases self.positions@.len() - i,
        {
            proof {
                assert(s.subrange(0, i + 1).drop_last() =~= s.subrange(0, i as int));
                assert(s[i as int].0 == self.positions@[i as int].symbol@);
            }
            if str_eq(self.positions[i].symbol.as_str(), symbol) {
                proof {
                    lemma_index_prefix(s, i as int, symbol@);
                }
                return Some(i);
            }
            i = i + 1;
        }
        proof {
            assert(s.subrange(0, s.len() as int) =~= s);
        }
        None
    }

    /// The position of `symbol`, if there is one.
    pub fn position(&self, symbol: &str) -> (r: Option<&PaperPosition>)
        ensures
            symbol_index(self.positions_spec(), symbol@) == -1 <==> r is None,
            r matches Some(p) ==> position_view(*p) == self.positions_spec()[symbol_index(
                self.positions_spec(),
                symbol@,
            )],
    {
        proof {
            lemma_symbol_index(self.positions_spec(), symbol@);
        }
        match self.find(symbol) {
            Some(i) => Some(&self.positions[i]),
            None => None,
        }
    }
}

/// A position's view after `add` or `reduce` ends up at index `i`.
proof fn lemma_replace_keeps_distinct(s: Seq<PositionView>, i: int, v: PositionView)
    requires
        symbols_distinct(s),
        0 <= i < s.len(),
        v.0 == s[i].0,
    ensures
        symbols_distinct(s.update(i, v)),
{
    let t = s.update(i, v);
    assert forall|a: int, b: int| 0 <= a < b < t.len() implies (#[trigger] t[a]).0 != (#[trigger] t[b]).0 by {
        assert(t[a].0 == s[a].0);
        assert(t[b].0 == s[b].0);
    }
}

proof fn lemma_push_keeps_distinct(s: Seq<PositionView>, v: PositionView)
    requires
        symbols_distinct(s),
        symbol_index(s, v.0) == -1,
    ensures
        symbols_distinct(s.push(v)),
{
    lemma_symbol_index(s, v.0);
    let t = s.push(v);
    assert forall|a: int, b: int| 0 <= a < b < t.len() implies (#[trigger] t[a]).0 != (#[trigger] t[b]).0 by {
        if b == s.len() {
            assert(t[a] == s[a]);
        } else {
            assert(t[a] == s[a] && t[b] == s[b]);
        }
    }
}

impl PaperPortfolio {
    /// Puts `pos` at index `i`, which holds a position of the same symbol.
    fn replace_at(&mut self, i: usize, pos: PaperPosition)
        requires
            i < old(self).positions_spec().len(),
            pos.symbol@ == old(self).positions_spec()[i as int].0,
        ensures
            final(self).positions_spec() == old(self).positions_spec().update(i as int, position_view(pos)),
            final(self).history_spec() == old(self).history_spec(),
            final(self).next_id_spec() == old(self).next_id_spec(),
            final(self).realized_spec() == old(self).realized_spec(),
    {
        proof {
            use_type_invariant(&*self);
            lemma_replace_keeps_distinct(self.positions_spec(), i as int, position_view(pos));
        }
        let ghost before = self.positions@;
        let mut v = Vec::new();
        std::mem::swap(&mut v, &mut self.positions);
        v.set(i, pos);
        proof {
            assert(positions_view(v@) =~= positions_view(before).update(i as int, position_view(pos)));
        }
        self.positions = v;
    }

    /// Appends `pos`, whose symbol has no position yet.
    fn append(&mut self, pos: PaperPosition)
        requires
            symbol_index(old(self).positions_spec(), pos.symbol@) == -1,
        ensures
            final(self).positions_spec() == old(self).positions_spec().push(position_view(pos)),
            final(self).history_spec() == old(self).history_spec(),
            final(self).next_id_spec() == old(self).next_id_spec(),
            final(self).realized_spec() == old(self).realized_spec(),
    {
        proof {
            use_type_invariant(&*self);
            lemma_push_keeps_distinct(self.positions_spec(), position_view(pos));
        }
        let ghost before = self.positions@;
        let mut v = Vec::new();
        std::mem::swap(&mut v, &mut self.positions);
        v.push(pos);
        proof {
            assert(positions_view(v@) =~= positions_view(before).push(position_view(pos)));
        }
        self.positions = v;
    }

    /// The position of `symbol` as it stands, or a new empty one.
    fn position_or_new(&self, symbol: &str) -> (r: (PaperPosition, Option<usize>))
        ensures
            r.1 matches Some(i) ==> i == with_position(self.positions_spec(), symbol@).1 && i
                < self.positions_spec().len(),
            r.1 is None ==> symbol_index(self.positions_spec(), symbol@) == -1,
            position_view(r.0) == with_position(self.positions_spec(), symbol@).0[with_position(
                self.positions_spec(),
                symbol@,
            ).1],
            r.0.symbol@ == symbol@,
    {
        proof {
            lemma_symbol_index(self.positions_spec(), symbol@);
        }
        match self.find(symbol) {
            Some(i) => {
                let p = self.positions[i].duplicate();
                (p, Some(i))
            },
            None => (PaperPosition::new(symbol), None),
        }
    }

    /// Refreshes the price of `symbol`'s position, if there is one; on
    /// overflow nothing changes.
    pub fn update_price(&mut self, symbol: &str, price: Dec) -> (r: Result<(), DecimalOverflow>)
        ensures
            final(self).history_spec() == old(self).history_spec(),
            final(self).next_id_spec() == old(self).next_id_spec(),
            final(self).realized_spec() == old(self).realized_spec(),
            ({
                let s = old(self).positions_spec();
                let i = symbol_index(s, symbol@);
                if i == -1 {
                    r is Ok && final(self).positions_spec() == s
                } else {
                    match repriced(s[i].0, s[i].1, s[i].2, price@) {
                        Some(v) => r is Ok && final(self).positions_spec() == s.update(i, v),
                        None => r is Err && final(self).positions_spec() == s,
                    }
                }
            }),
    {
        proof {
            lemma_symbol_index(self.positions_spec(), symbol@);
        }
        match self.find(symbol) {
            Some(i) => {
                let mut p = self.positions[i].duplicate();
                let res = p.update_price(price);
                match res {
                    Ok(_) => {
                        self.replace_at(i, p);
                        Ok(())
                    },
                    Err(e) => Err(e),
                }
            },
            None => Ok(()),
        }
    }

    /// Buys `q` of `symbol` at `p` into its position (created when
    /// missing); on overflow nothing changes.
    pub fn apply_buy(&mut self, symbol: &str, q: Dec, p: Dec) -> (r: Result<(), DecimalOverflow>)
        ensures
            final(self).history_spec() == old(self).history_spec(),
            final(self).next_id_spec() == old(self).next_id_spec(),
            final(self).realized_spec() == old(self).realized_spec(),
            ({
                let (s, i) = with_position(old(self).positions_spec(), symbol@);
                match added(s[i], q@, p@) {
                    Some(v) => r is Ok && final(self).positions_spec() == s.update(i, v),
                    None => r is Err && final(self).positions_spec() == old(self).positions_spec(),
                }
            }),
    {
        let (mut pos, at) = self.position_or_new(symbol);
        match pos.add(q, p) {
            Ok(_) => {},
            Err(e) => return Err(e),
        }
        match at {
            Some(i) => self.replace_at(i, pos),
            None => {
                let ghost s = self.positions_spec();
                self.append(pos);
                proof {
                    assert(s.push(position_view(pos)) =~= s.push(empty_position(symbol@)).update(
                        s.len() as int,
                        position_view(pos),
                    ));
                }
            },
        }
        Ok(())
    }

    /// Sells up to `q` of `symbol` at `p` and books the realized PnL; on
    /// overflow nothing changes.
    pub fn apply_sell(&mut self, symbol: &str, q: Dec, p: Dec) -> (r: Result<(), DecimalOverflow>)
        ensures
            final(self).history_spec() == old(self).history_spec(),
            final(self).next_id_spec() == old(self).next_id_spec(),
            ({
                let (s, i) = with_position(old(self).positions_spec(), symbol@);
                match reduced(s[i], q@, p@) {
                    Some((v, realized)) => match decimal_sum(old(self).realized_spec(), realized) {
                        Some(total) => r is Ok && final(self).positions_spec() == s.update(i, v)
                            && final(self).realized_spec() == total,
                        None => r is Err && final(self).positions_spec() == old(self).positions_spec()
                            && final(self).realized_spec() == old(self).realized_spec(),
                    },
                    None => r is Err && final(self).positions_spec() == old(self).positions_spec()
                        && final(self).realized_spec() == old(self).realized_spec(),
                }
            }),
    {
        let (mut pos, at) = self.position_or_new(symbol);
        let realized = match pos.reduce(q, p) {
            Ok(x) => x,
            Err(e) => return Err(e),
        };
        let total = match dec_add(self.realized_pnl, realized) {
            Some(t) => t,
            None => return Err(DecimalOverflow),
        };
        match at {
            Some(i) => self.replace_at(i, pos),
            None => {
                let ghost s = self.positions_spec();
                self.append(pos);
                proof {
                    assert(s.push(position_view(pos)) =~= s.push(empty_position(symbol@)).update(
                        s.len() as int,
                        position_view(pos),
                    ));
                }
            },
        }
        self.set_realized(total);
        Ok(())
    }

    fn set_realized(&mut self, total: Dec)
        ensures
            final(self).realized_spec() == total@,
            final(self).positions_spec() == old(self).positions_spec(),
            final(self).history_spec() == old(self).history_spec(),
            final(self).next_id_spec() == old(self).next_id_spec(),
    {
        proof {
            use_type_invariant(&*self);
        }
        self.realized_pnl = total;
    }

    /// Adds an order to the history, dropping the oldest beyond 100.
    pub fn add_order(&mut self, order: PaperOrder)
        ensures
            final(self).history_spec() == capped(old(self).history_spec().push(order_view(order))),
            final(self).positions_spec() == old(self).positions_spec(),
            final(self).next_id_spec() == old(self).next_id_spec(),
            final(self).realized_spec() == old(self).realized_spec(),
    {
        proof {
            use_type_invariant(&*self);
        }
        let ghost before = self.order_history@;
        let mut h = Vec::new();
        std::mem::swap(&mut h, &mut self.order_history);
        h.push(order);
        proof {
            assert(orders_view(h@) =~= orders_view(before).push(order_view(order)));
        }
        if h.len() > ORDER_HISTORY_CAPACITY {
            let ghost full = h@;
            h.remove(0);
            proof {
                assert(h@ =~= full.subrange(1, full.len() as int));
                assert(orders_view(h@) =~= orders_view(full).subrange(
                    orders_view(full).len() - ORDER_HISTORY_CAPACITY,
                    orders_view(full).len() as int,
                ));
            }
        }
        self.order_history = h;
    }

    /// Sum of the positions' unrealized PnL (`None` on overflow).
    pub fn total_unrealized_pnl(&self) -> (r: Option<Dec>)
        ensures
            parts_of(r) == pnl_total(self.positions_spec()),
    {
        let ghost s = self.positions_spec();
        let mut acc = Dec::zero();
        let mut i: usize = 0;
        while i < self.positions.len()
            invariant
                i <= self.positions@.len(),
                s == positions_view(self.positions@),
                pnl_total(s.subrange(0, i as int)) == Some(acc@),
            decreases self.positions@.len() - i,
        {
            proof {
                assert(s.subrange(0, i + 1).drop_last() =~= s.subrange(0, i as int));
                assert(s[i as int].4 == self.positions@[i as int].unrealized_pnl@);
            }
            match dec_add(acc, self.positions[i].unrealized_pnl) {
                Some(a) => acc = a,
                None => {
                    proof {
                        lemma_total_none_extends(s, i as int + 1);
                    }
                    return None;
                },
            }
            i = i + 1;
        }
        proof {
            assert(s.subrange(0, s.len() as int) =~= s);
        }
        Some(acc)
    }

    /// Sum of quantity times price (`price`) or times average cost over the
    /// positions (`None` on overflow).
    fn value_sum(&self, price: bool) -> (r: Option<Dec>)
        ensures
            parts_of(r) == value_total(self.positions_spec(), price),
    {
        let ghost s = self.positions_spec();
        let mut acc = Dec::zero();
        let mut i: usize = 0;
        while i < self.positions.len()
            invariant
                i <= self.positions@.len(),
                s == positions_view(self.positions@),
                value_total(s.subrange(0, i as int), price) == Some(acc@),
            decreases self.positions@.len() - i,
        {
            proof {
                assert(s.subrange(0, i + 1).drop_last() =~= s.subrange(0, i as int));
                assert(s[i as int] == position_view(self.positions@[i as int]));
            }
            let pos = &self.positions[i];
            let v = if price {
                pos.market_value()
            } else {
                pos.cost_basis()
            };
            match v {
                Some(v) => match dec_add(acc, v) {
                    Some(a) => acc = a,
                    None => {
                        proof {
                            lemma_value_none_extends(s, i as int + 1, price);
                        }
                        return None;
                    },
                },
                None => {
                    proof {
                        lemma_value_none_extends(s, i as int + 1, price);
                    }
                    return None;
                },
            }
            i = i + 1;
        }
        proof {
            assert(s.subrange(0, s.len() as int) =~= s);
        }
        Some(acc)
    }

    /// Sum of the positions' market values (`None` on overflow).
    pub fn total_market_value(&self) -> (r: Option<Dec>)
        ensures
            parts_of(r) == value_total(self.positions_spec(), true),
    {
        self.value_sum(true)
    }

    /// Sum of the positions' cost bases (`None` on overflow).
    pub fn total_cost_basis(&self) -> (r: Option<Dec>)
        ensures
            parts_of(r) == value_total(self.positions_spec(), false),
    {
        self.value_sum(false)
    }

    /// How many positions hold something.
    pub fn open_position_count(&self) -> (r: usize)
        ensures
            r == open_count(self.positions_spec()),
    {
        let ghost s = self.positions_spec();
        let mut c: usize = 0;
        let mut i: usize = 0;
        while i < self.positions.len()
            invariant
                i <= self.positions@.len(),
                s == positions_view(self.positions@),
                c == open_count(s.subrange(0, i as int)),
                c <= i,
            decreases self.positions@.len() - i,
        {
            proof {
                assert(s.subrange(0, i + 1).drop_last() =~= s.subrange(0, i as int));
                assert(s[i as int] == position_view(self.positions@[i as int]));
            }
            if !self.positions[i].is_empty() {
                c = c + 1;
            }
            i = i + 1;
        }
        proof {
            assert(s.subrange(0, s.len() as int) =~= s);
        }
        c
    }

    /// The latest `limit` orders, most recent first.
    pub fn recent_orders(&self, limit: usize) -> (r: Vec<PaperOrder>)
        ensures
            orders_view(r@) == last_n(self.history_spec(), limit as nat).reverse(),
    {
        let h = &self.order_history;
        let n = h.len();
        let stop = if n > limit { n - limit } else { 0 };
        let mut out: Vec<PaperOrder> = Vec::new();
        let mut i: usize = n;
        while i > stop
            invariant
                n == h@.len(),
                stop <= i <= n,
                orders_view(out@) == orders_view(h@).subrange(i as int, n as int).reverse(),
            decreases i,
        {
            i = i - 1;
            let o = h[i].duplicate();
            let ghost before = out@;
            out.push(o);
            proof {
                assert(orders_view(out@) =~= orders_view(before).push(order_view(h@[i as int])));
                assert(orders_view(h@).subrange(i as int, n as int).reverse() =~= orders_view(h@).subrange(
                    i + 1,
                    n as int,
                ).reverse().push(orders_view(h@)[i as int]));
            }
        }
        proof {
            if n <= limit {
                assert(orders_view(h@).subrange(0, n as int) =~= orders_view(h@));
            }
        }
        out
    }

    /// Clears positions and orders; ids start at 1 again; realized PnL 0.
    pub fn reset(&mut self)
        ensures
            final(self).positions_spec() == Seq::<PositionView>::empty(),
            final(self).history_spec().len() == 0,
            final(self).next_id_spec() == 1,
            final(self).realized_spec() == (0int, 0nat),
    {
        *self = PaperPortfolio::new();
    }

    /// Drops the positions that hold nothing, keeping the others in order.
    pub fn cleanup_empty_positions(&mut self)
        ensures
            final(self).positions_spec() == old(self).positions_spec().filter(|v: PositionView| v.1.0 != 0),
            final(self).history_spec() == old(self).history_spec(),
            final(self).next_id_spec() == old(self).next_id_spec(),
            final(self).realized_spec() == old(self).realized_spec(),
    {
        proof {
            use_type_invariant(&*self);
        }
        let ghost s = self.positions_spec();
        let mut kept: Vec<PaperPosition> = Vec::new();
        let mut i: usize = 0;
        while i < self.positions.len()
            invariant
                i <= self.positions@.len(),
                s == positions_view(self.positions@),
                symbols_distinct(s),
                positions_view(kept@) == s.subrange(0, i as int).filter(|v: PositionView| v.1.0 != 0),
            decreases self.positions@.len() - i,
        {
            proof {
                reveal_with_fuel(Seq::filter, 2);
                assert(s.subrange(0, i + 1) =~= s.subrange(0, i as int).push(s[i as int]));
                Seq::filter_distributes_over_add(s.subrange(0, i as int), seq![s[i as int]], |v: PositionView| v.1.0 != 0);
                assert(s.subrange(0, i as int).push(s[i as int]) =~= s.subrange(0, i as int) + seq![s[i as int]]);
                assert(s[i as int] == position_view(self.positions@[i as int]));
            }
            if !self.positions[i].is_empty() {
                let ghost before = kept@;
                kept.push(self.positions[i].duplicate());
                proof {
                    reveal_with_fuel(Seq::filter, 2);
                    assert(positions_view(kept@) =~= positions_view(before).push(s[i as int]));
                    assert(seq![s[i as int]].drop_last() =~= Seq::<PositionView>::empty());
                    assert(seq![s[i as int]].filter(|v: PositionView| v.1.0 != 0) =~= seq![s[i as int]]);
                }
            } else {
                proof {
                    reveal_with_fuel(Seq::filter, 2);
                    assert(seq![s[i as int]].drop_last() =~= Seq::<PositionView>::empty());
                    assert(seq![s[i as int]].filter(|v: PositionView| v.1.0 != 0) =~= Seq::<PositionView>::empty());
                }
            }
            i = i + 1;
        }
        proof {
            assert(s.subrange(0, s.len() as int) =~= s);
            lemma_filter_keeps_distinct(s, |v: PositionView| v.1.0 != 0);
        }
        let mut v = kept;
        std::mem::swap(&mut v, &mut self.positions);
    }
}

/// The last `n` elements of a sequence (all of them when there are fewer).
pub open spec fn last_n<A>(s: Seq<A>, n: nat) -> Seq<A> {
    if s.len() > n {
        s.subrange(s.len() - n, s.len() as int)
    } else {
        s
    }
}

proof fn lemma_total_none_extends(s: Seq<PositionView>, k: int)
    requires
        0 <= k <= s.len(),
        pnl_total(s.subrange(0, k)) is None,
    ensures
        pnl_total(s) is None,
    decreases s.len() - k,
{
    if k < s.len() {
        assert(s.subrange(0, k + 1).drop_last() =~= s.subrange(0, k));
        lemma_total_none_extends(s, k + 1);
    } else {
        assert(s.subrange(0, k) =~= s);
    }
}

proof fn lemma_value_none_extends(s: Seq<PositionView>, k: int, price: bool)
    requires
        0 <= k <= s.len(),
        value_total(s.subrange(0, k), price) is None,
    ensures
        value_total(s, price) is None,
    decreases s.len() - k,
{
    if k < s.len() {
        assert(s.subrange(0, k + 1).drop_last() =~= s.subrange(0, k));
        lemma_value_none_extends(s, k + 1, price);
    } else {
        assert(s.subrange(0, k) =~= s);
    }
}

proof fn lemma_filter_keeps_distinct(s: Seq<PositionView>, f: spec_fn(PositionView) -> bool)
    requires
        symbols_distinct(s),
    ensures
        symbols_distinct(s.filter(f)),
    decreases s.len(),
{
    reveal_with_fuel(Seq::filter, 1);
    if s.len() > 0 {
        let d = s.drop_last();
        assert(symbols_distinct(d)) by {
            assert forall|a: int, b: int| 0 <= a < b < d.len() implies (#[trigger] d[a]).0 != (#[trigger] d[b]).0 by {
                assert(d[a] == s[a] && d[b] == s[b]);
            }
        }
        lemma_filter_keeps_distinct(d, f);
        broadcast use vstd::seq_lib::group_filter_ensures;
        if f(s.last()) {
            let t = d.filter(f);
            assert(s.filter(f) =~= t.push(s.last()));
            assert forall|a: int, b: int| 0 <= a < b < t.len() + 1 implies (#[trigger] t.push(s.last())[a]).0
                != (#[trigger] t.push(s.last())[b]).0 by {
                if b == t.len() {
                    assert(t.contains(t[a]));
                    d.lemma_filter_contains_rev(f, t[a]);
                    assert(d.contains(t[a]));
                    let j = choose|j: int| 0 <= j < d.len() && d[j] == t[a];
                    assert(s[j] == d[j]);
                    assert(s[j].0 != s[s.len() - 1].0);
                }
            }
        } else {
            assert(s.filter(f) =~= d.filter(f));
        }
    }
}

proof fn lemma_index_prefix(s: Seq<PositionView>, i: int, symbol: Seq<char>)
    requires
        0 <= i < s.len(),
        symbol_index(s.subrange(0, i), symbol) == -1,
        s[i].0 == symbol,
    ensures
        symbol_index(s, symbol) == i,
    decreases s.len(),
{
    if s.len() == i + 1 {
        assert(s.drop_last() =~= s.subrange(0, i));
    } else {
        assert(s.drop_last().subrange(0, i) =~= s.subrange(0, i));
        lemma_index_prefix(s.drop_last(), i, symbol);
    }
}

} // verus!

verus! {

/// Why an order was refused.
#[derive(Debug, Clone)]
pub enum PaperError {
    NonPositiveBuyQuantity,
    NonPositiveSellQuantity,
    NonPositivePrice,
    NoPosition(String),
    /// A decimal computation or the order counter overflowed
    Overflow,
}

impl PaperError {
    pub fn message(&self) -> (r: String)
        ensures
            r@ == (match *self {
                PaperError::NonPositiveBuyQuantity => "Buy quantity must be positive"@,
                PaperError::NonPositiveSellQuantity => "Sell quantity must be positive"@,
                PaperError::NonPositivePrice => "Price must be positive"@,
                PaperError::NoPosition(s) => "No position to sell for "@ + s@,
                PaperError::Overflow => "Decimal arithmetic overflowed"@,
            }),
    {
        match self {
            PaperError::NonPositiveBuyQuantity => String::from_str("Buy quantity must be positive"),
            PaperError::NonPositiveSellQuantity => String::from_str("Sell quantity must be positive"),
            PaperError::NonPositivePrice => String::from_str("Price must be positive"),
            PaperError::NoPosition(s) => {
                let mut m = String::from_str("No position to sell for ");
                m.append(s.as_str());
                m
            },
            PaperError::Overflow => String::from_str("Decimal arithmetic overflowed"),
        }
    }
}

/// Nothing in the portfolio changed.
pub open spec fn portfolio_unchanged(a: PaperPortfolio, b: PaperPortfolio) -> bool {
    &&& a.positions_spec() == b.positions_spec()
    &&& a.history_spec() == b.history_spec()
    &&& a.next_id_spec() == b.next_id_spec()
    &&& a.realized_spec() == b.realized_spec()
}

/// The positions and realized PnL after a trade, `None` on overflow.
pub open spec fn traded(
    pre: PaperPortfolio,
    side: OrderSide,
    symbol: Seq<char>,
    q: (int, nat),
    p: (int, nat),
) -> Option<(Seq<PositionView>, (int, nat))> {
    let (s, i) = with_position(pre.positions_spec(), symbol);
    match side {
        OrderSide::Buy => match added(s[i], q, p) {
            Some(v) => Some((s.update(i, v), pre.realized_spec())),
            None => None,
        },
        OrderSide::Sell => match reduced(s[i], q, p) {
            Some((v, realized)) => match decimal_sum(pre.realized_spec(), realized) {
                Some(t) => Some((s.update(i, v), t)),
                None => None,
            },
            None => None,
        },
    }
}

/// An executed market order: filled at once at `p` at time `now` under
/// the next order id, applied to the position and recorded in the history.
/// When a computation overflows the order is refused and nothing changes.
pub open spec fn trade_outcome(
    pre: PaperPortfolio,
    post: PaperPortfolio,
    side: OrderSide,
    symbol: Seq<char>,
    q: (int, nat),
    p: (int, nat),
    now: u64,
    r: Result<PaperOrder, PaperError>,
) -> bool {
    match traded(pre, side, symbol, q, p) {
        Some((positions, realized)) => if pre.next_id_spec() < u64::MAX {
            let order = (pre.next_id_spec(), symbol, side, q, p, OrderStatus::Filled, now, Some(now));
            &&& r matches Ok(o) && order_view(o) == order
            &&& post.positions_spec() == positions
            &&& post.realized_spec() == realized
            &&& post.next_id_spec() == pre.next_id_spec() + 1
            &&& post.history_spec() == capped(pre.history_spec().push(order))
        } else {
            r matches Err(PaperError::Overflow) && portfolio_unchanged(pre, post)
        },
        None => r matches Err(PaperError::Overflow) && portfolio_unchanged(pre, post),
    }
}

/// What a buy order answers.
pub open spec fn buy_outcome(
    pre: PaperPortfolio,
    post: PaperPortfolio,
    symbol: Seq<char>,
    q: (int, nat),
    p: (int, nat),
    now: u64,
    r: Result<PaperOrder, PaperError>,
) -> bool {
    if q.0 <= 0 {
        r matches Err(PaperError::NonPositiveBuyQuantity) && portfolio_unchanged(pre, post)
    } else if p.0 <= 0 {
        r matches Err(PaperError::NonPositivePrice) && portfolio_unchanged(pre, post)
    } else {
        trade_outcome(pre, post, OrderSide::Buy, symbol, q, p, now, r)
    }
}

/// What a sell order answers: also refused without a holding of the
/// symbol; a quantity above the holding is capped at the holding.
pub open spec fn sell_outcome(
    pre: PaperPortfolio,
    post: PaperPortfolio,
    symbol: Seq<char>,
    q: (int, nat),
    p: (int, nat),
    now: u64,
    r: Result<PaperOrder, PaperError>,
) -> bool {
    let s = pre.positions_spec();
    let i = symbol_index(s, symbol);
    if q.0 <= 0 {
        r matches Err(PaperError::NonPositiveSellQuantity) && portfolio_unchanged(pre, post)
    } else if p.0 <= 0 {
        r matches Err(PaperError::NonPositivePrice) && portfolio_unchanged(pre, post)
    } else if i == -1 || s[i].1.0 == 0 {
        (r matches Err(PaperError::NoPosition(x)) && x@ == symbol) && portfolio_unchanged(pre, post)
    } else {
        let sold = if value_le(q, s[i].1) { q } else { s[i].1 };
        trade_outcome(pre, post, OrderSide::Sell, symbol, sold, p, now, r)
    }
}

/// A refused buy leaves the portfolio as it was.
pub proof fn lemma_refused_buy_changes_nothing(
    pre: PaperPortfolio,
    post: PaperPortfolio,
    symbol: Seq<char>,
    q: (int, nat),
    p: (int, nat),
    now: u64,
    e: PaperError,
)
    requires
        buy_outcome(pre, post, symbol, q, p, now, Err(e)),
    ensures
        portfolio_unchanged(pre, post),
{
}

/// A refused sell leaves the portfolio as it was.
pub proof fn lemma_refused_sell_changes_nothing(
    pre: PaperPortfolio,
    post: PaperPortfolio,
    symbol: Seq<char>,
    q: (int, nat),
    p: (int, nat),
    now: u64,
    e: PaperError,
)
    requires
        sell_outcome(pre, post, symbol, q, p, now, Err(e)),
    ensures
        portfolio_unchanged(pre, post),
{
}

/// The paper trading engine.
#[derive(Debug)]
pub struct PaperTradingEngine {
    portfolio: PaperPortfolio,
}

impl PaperTradingEngine {
    pub closed spec fn portfolio_spec(self) -> PaperPortfolio {
        self.portfolio
    }

    /// An engine with an empty portfolio.
    pub fn new() -> (r: Self)
        ensures
            r.portfolio_spec().positions_spec() == Seq::<PositionView>::empty(),
            r.portfolio_spec().history_spec().len() == 0,
            r.portfolio_spec().next_id_spec() == 1,
            r.portfolio_spec().realized_spec() == (0int, 0nat),
    {
        PaperTradingEngine { portfolio: PaperPortfolio::new() }
    }

    fn execute_order(&mut self, side: OrderSide, symbol: &str, quantity: Dec, price: Dec, now: u64) -> (r: Result<
        PaperOrder,
        PaperError,
    >)
        ensures
            trade_outcome(
                old(self).portfolio_spec(),
                final(self).portfolio_spec(),
                side,
                symbol@,
                quantity@,
                price@,
                now,
                r,
            ),
    {
        if self.portfolio.next_order_id == u64::MAX {
            return Err(PaperError::Overflow);
        }
        let applied = match side {
            OrderSide::Buy => self.portfolio.apply_buy(symbol, quantity, price),
            OrderSide::Sell => self.portfolio.apply_sell(symbol, quantity, price),
        };
        if applied.is_err() {
            return Err(PaperError::Overflow);
        }
        let id = self.portfolio.next_order_id();
        let order = PaperOrder::new_filled_at(id, String::from_str(symbol), side, quantity, price, now);
        self.portfolio.add_order(order.duplicate());
        Ok(order)
    }

    /// Buys at the given price at time `now` (see `buy_outcome`).
    pub fn buy_at(&mut self, symbol: &str, quantity: Dec, price: Dec, now: u64) -> (r: Result<PaperOrder, PaperError>)
        ensures
            buy_outcome(old(self).portfolio_spec(), final(self).portfolio_spec(), symbol@, quantity@, price@, now, r),
    {
        if !quantity.is_positive() {
            return Err(PaperError::NonPositiveBuyQuantity);
        }
        if !price.is_positive() {
            return Err(PaperError::NonPositivePrice);
        }
        self.execute_order(OrderSide::Buy, symbol, quantity, price, now)
    }

    /// Buys now.
    pub fn buy(&mut self, symbol: &str, quantity: Dec, price: Dec) -> (r: Result<PaperOrder, PaperError>)
        ensures
            exists|now: u64|
                #[trigger] buy_outcome(
                    old(self).portfolio_spec(),
                    final(self).portfolio_spec(),
                    symbol@,
                    quantity@,
                    price@,
                    now,
                    r,
                ),
    {
        self.buy_at(symbol, quantity, price, now_ms())
    }

    /// Sells at the given price at time `now` (see `sell_outcome`).
    pub fn sell_at(&mut self, symbol: &str, quantity: Dec, price: Dec, now: u64) -> (r: Result<PaperOrder, PaperError>)
        ensures
            sell_outcome(old(self).portfolio_spec(), final(self).portfolio_spec(), symbol@, quantity@, price@, now, r),
    {
        if !quantity.is_positive() {
            return Err(PaperError::NonPositiveSellQuantity);
        }
        if !price.is_positive() {
            return Err(PaperError::NonPositivePrice);
        }
        proof {
            lemma_symbol_index(self.portfolio.positions_spec(), symbol@);
        }
        let available = match self.portfolio.position(symbol) {
            None => return Err(PaperError::NoPosition(String::from_str(symbol))),
            Some(pos) => pos.quantity,
        };
        if available.is_zero() {
            return Err(PaperError::NoPosition(String::from_str(symbol)));
        }
        let sold = if dec_le(quantity, available) {
            quantity
        } else {
            available
        };
        self.execute_order(OrderSide::Sell, symbol, sold, price, now)
    }

    /// Sells now.
    pub fn sell(&mut self, symbol: &str, quantity: Dec, price: Dec) -> (r: Result<PaperOrder, PaperError>)
        ensures
            exists|now: u64|
                #[trigger] sell_outcome(
                    old(self).portfolio_spec(),
                    final(self).portfolio_spec(),
                    symbol@,
                    quantity@,
                    price@,
                    now,
                    r,
                ),
    {
        self.sell_at(symbol, quantity, price, now_ms())
    }

    /// Refreshes the PnL of `symbol`'s position at a new price.
    pub fn on_price_update(&mut self, symbol: &str, price: Dec) -> (r: Result<(), DecimalOverflow>)
        ensures
            final(self).portfolio_spec().history_spec() == old(self).portfolio_spec().history_spec(),
            final(self).portfolio_spec().next_id_spec() == old(self).portfolio_spec().next_id_spec(),
            final(self).portfolio_spec().realized_spec() == old(self).portfolio_spec().realized_spec(),
            ({
                let s = old(self).portfolio_spec().positions_spec();
                let i = symbol_index(s, symbol@);
                if i == -1 {
                    r is Ok && final(self).portfolio_spec().positions_spec() == s
                } else {
                    match repriced(s[i].0, s[i].1, s[i].2, price@) {
                        Some(v) => r is Ok && final(self).portfolio_spec().positions_spec() == s.update(i, v),
                        None => r is Err && final(self).portfolio_spec().positions_spec() == s,
                    }
                }
            }),
    {
        self.portfolio.update_price(symbol, price)
    }

    pub fn portfolio(&self) -> (r: &PaperPortfolio)
        ensures
            *r == self.portfolio_spec(),
    {
        &self.portfolio
    }

    pub fn position(&self, symbol: &str) -> (r: Option<&PaperPosition>)
        ensures
            symbol_index(self.portfolio_spec().positions_spec(), symbol@) == -1 <==> r is None,
            r matches Some(p) ==> position_view(*p) == self.portfolio_spec().positions_spec()[symbol_index(
                self.portfolio_spec().positions_spec(),
                symbol@,
            )],
    {
        self.portfolio.position(symbol)
    }

    pub fn total_unrealized_pnl(&self) -> (r: Option<Dec>)
        ensures
            parts_of(r) == pnl_total(self.portfolio_spec().positions_spec()),
    {
        self.portfolio.total_unrealized_pnl()
    }

    pub fn total_realized_pnl(&self) -> (r: Dec)
        ensures
            r@ == self.portfolio_spec().realized_spec(),
    {
        self.portfolio.realized_pnl()
    }

    /// Clears positions and history.
    pub fn reset(&mut self)
        ensures
            final(self).portfolio_spec().positions_spec() == Seq::<PositionView>::empty(),
            final(self).portfolio_spec().history_spec().len() == 0,
            final(self).portfolio_spec().next_id_spec() == 1,
            final(self).portfolio_spec().realized_spec() == (0int, 0nat),
    {
        self.portfolio.reset();
    }
}

} // verus!

verus! {

/// The last prices as a map from symbol to price.
pub open spec fn price_map(s: Seq<(String, Dec)>) -> Map<Seq<char>, (int, nat)>
    decreases s.len(),
{
    if s.len() == 0 {
        Map::empty()
    } else {
        price_map(s.drop_last()).insert(s.last().0@, s.last().1@)
    }
}

pub open spec fn price_keys_distinct(s: Seq<(String, Dec)>) -> bool {
    forall|i: int, j: int| 0 <= i < j < s.len() ==> (#[trigger] s[i]).0@ != (#[trigger] s[j]).0@
}

proof fn lemma_price_map_lookup(s: Seq<(String, Dec)>, k: Seq<char>)
    requires
        price_keys_distinct(s),
    ensures
        price_map(s).contains_key(k) <==> exists|i: int| 0 <= i < s.len() && (#[trigger] s[i]).0@ == k,
        forall|i: int| 0 <= i < s.len() && (#[trigger] s[i]).0@ == k ==> price_map(s)[k] == s[i].1@,
    decreases s.len(),
{
    if s.len() > 0 {
        let d = s.drop_last();
        assert(price_keys_distinct(d)) by {
            assert forall|i: int, j: int| 0 <= i < j < d.len() implies (#[trigger] d[i]).0@ != (#[trigger] d[j]).0@ by {
                assert(d[i] == s[i] && d[j] == s[j]);
            }
        }
        lemma_price_map_lookup(d, k);
        if price_map(s).contains_key(k) && s.last().0@ != k {
            let i = choose|i: int| 0 <= i < d.len() && (#[trigger] d[i]).0@ == k;
            assert(s[i] == d[i]);
        }
        assert forall|i: int| 0 <= i < s.len() && (#[trigger] s[i]).0@ == k implies price_map(s)[k] == s[i].1@ by {
            if i < s.len() - 1 {
                assert(s[i] == d[i]);
                assert(s[i].0@ != s[s.len() - 1].0@);
            }
        }
        if exists|i: int| 0 <= i < s.len() && (#[trigger] s[i]).0@ == k {
            let i = choose|i: int| 0 <= i < s.len() && (#[trigger] s[i]).0@ == k;
            if i < s.len() - 1 {
                assert(s[i] == d[i]);
            }
        }
    }
}

proof fn lemma_price_map_update(s: Seq<(String, Dec)>, i: int, e: (String, Dec))
    requires
        price_keys_distinct(s),
        0 <= i < s.len(),
        e.0@ == s[i].0@,
    ensures
        price_map(s.update(i, e)) == price_map(s).insert(e.0@, e.1@),
        price_keys_distinct(s.update(i, e)),
    decreases s.len(),
{
    let u = s.update(i, e);
    assert(price_keys_distinct(u)) by {
        assert forall|a: int, b: int| 0 <= a < b < u.len() implies (#[trigger] u[a]).0@ != (#[trigger] u[b]).0@ by {
            assert(u[a].0@ == s[a].0@);
            assert(u[b].0@ == s[b].0@);
        }
    }
    if i == s.len() - 1 {
        assert(u.drop_last() =~= s.drop_last());
        assert(price_map(u) =~= price_map(s).insert(e.0@, e.1@));
    } else {
        let d = s.drop_last();
        assert(price_keys_distinct(d)) by {
            assert forall|a: int, b: int| 0 <= a < b < d.len() implies (#[trigger] d[a]).0@ != (#[trigger] d[b]).0@ by {
                assert(d[a] == s[a] && d[b] == s[b]);
            }
        }
        assert(u.drop_last() =~= d.update(i, e));
        lemma_price_map_update(d, i, e);
        assert(s.last().0@ != s[i].0@);
        assert(price_map(u) =~= price_map(s).insert(e.0@, e.1@));
    }
}

/// A session trade's answer as the engine gave it.
pub open spec fn engine_result(r: Result<PaperOrder, PaperTradeError>) -> Result<PaperOrder, PaperError> {
    match r {
        Ok(o) => Ok(o),
        Err(PaperTradeError::Refused(e)) => Err(e),
        Err(PaperTradeError::NoPrice(_)) => Err(PaperError::Overflow),
    }
}

/// Why a session trade was refused.
#[derive(Debug, Clone)]
pub enum PaperTradeError {
    /// No price has been seen for the symbol yet
    NoPrice(String),
    Refused(PaperError),
}

impl PaperTradeError {
    pub fn message(&self) -> (r: String)
        ensures
            match *self {
                PaperTradeError::NoPrice(s) => r@ == "No price data available for "@ + s@
                    + ". Please wait for market data."@,
                PaperTradeError::Refused(_) => true,
            },
    {
        match self {
            PaperTradeError::NoPrice(s) => {
                let mut m = String::from_str("No price data available for ");
                m.append(s.as_str());
                m.append(". Please wait for market data.");
                m
            },
            PaperTradeError::Refused(e) => e.message(),
        }
    }
}

/// A session's paper trading: the engine and the last price of each symbol.
#[derive(Debug)]
pub struct PaperTradingState {
    engine: PaperTradingEngine,
    last_prices: Vec<(String, Dec)>,
}

impl PaperTradingState {
    #[verifier::type_invariant]
    closed spec fn inv(self) -> bool {
        price_keys_distinct(self.last_prices@)
    }

    pub closed spec fn engine_spec(self) -> PaperTradingEngine {
        self.engine
    }

    /// The last price seen for each symbol.
    pub closed spec fn prices_spec(self) -> Map<Seq<char>, (int, nat)> {
        price_map(self.last_prices@)
    }

    pub fn new() -> (r: Self)
        ensures
            r.prices_spec() == Map::<Seq<char>, (int, nat)>::empty(),
            r.engine_spec().portfolio_spec().positions_spec() == Seq::<PositionView>::empty(),
            r.engine_spec().portfolio_spec().history_spec().len() == 0,
    {
        PaperTradingState { engine: PaperTradingEngine::new(), last_prices: Vec::new() }
    }

    pub fn engine(&self) -> (r: &PaperTradingEngine)
        ensures
            *r == self.engine_spec(),
    {
        &self.engine
    }

    /// The last price of `symbol`, if one was seen.
    pub fn last_price(&self, symbol: &str) -> (r: Option<Dec>)
        ensures
            self.prices_spec().contains_key(symbol@) <==> r is Some,
            r matches Some(p) ==> p@ == self.prices_spec()[symbol@],
    {
        proof {
            use_type_invariant(self);
            lemma_price_map_lookup(self.last_prices@, symbol@);
        }
        let mut i: usize = 0;
        while i < self.last_prices.len()
            invariant
                i <= self.last_prices@.len(),
                price_keys_distinct(self.last_prices@),
                forall|j: int| 0 <= j < i ==> (#[trigger] self.last_prices@[j]).0@ != symbol@,
            decreases self.last_prices@.len() - i,
        {
            if str_eq(self.last_prices[i].0.as_str(), symbol) {
                proof {
                    lemma_price_map_lookup(self.last_prices@, symbol@);
                }
                return Some(self.last_prices[i].1);
            }
            i = i + 1;
        }
        None
    }

    fn record_price(&mut self, symbol: String, price: Dec)
        ensures
            final(self).prices_spec() == old(self).prices_spec().insert(symbol@, price@),
            final(self).engine_spec() == old(self).engine_spec(),
    {
        proof {
            use_type_invariant(&*self);
        }
        let ghost v = self.last_prices@;
        let mut i: usize = 0;
        while i < self.last_prices.len()
            invariant
                i <= v.len(),
                self.last_prices@ == v,
                v == old(self).last_prices@,
                self.engine == old(self).engine,
                price_keys_distinct(v),
                forall|j: int| 0 <= j < i ==> (#[trigger] v[j]).0@ != symbol@,
            decreases v.len() - i,
        {
            if str_eq(self.last_prices[i].0.as_str(), symbol.as_str()) {
                let e = (symbol, price);
                proof {
                    lemma_price_map_update(v, i as int, e);
                }
                let mut prices = Vec::new();
                std::mem::swap(&mut prices, &mut self.last_prices);
                prices.set(i, e);
                self.last_prices = prices;
                return;
            }
            i = i + 1;
        }
        let ghost sym = symbol@;
        let mut prices = Vec::new();
        std::mem::swap(&mut prices, &mut self.last_prices);
        prices.push((symbol, price));
        proof {
            assert(prices@.drop_last() =~= v);
            assert(price_keys_distinct(prices@)) by {
                assert forall|a: int, b: int| 0 <= a < b < prices@.len() implies (#[trigger] prices@[a]).0@
                    != (#[trigger] prices@[b]).0@ by {
                    if b == v.len() {
                        assert(prices@[a] == v[a]);
                    } else {
                        assert(prices@[a] == v[a] && prices@[b] == v[b]);
                    }
                }
            }
        }
        self.last_prices = prices;
    }

    /// A price tick for `symbol`: kept as its last price and applied to its
    /// position's PnL (left as it was should that overflow).
    pub fn on_price(&mut self, symbol: String, price: Dec)
        ensures
            final(self).prices_spec() == old(self).prices_spec().insert(symbol@, price@),
            final(self).engine_spec().portfolio_spec().history_spec() == old(self).engine_spec().portfolio_spec().history_spec(),
            ({
                let s = old(self).engine_spec().portfolio_spec().positions_spec();
                let i = symbol_index(s, symbol@);
                final(self).engine_spec().portfolio_spec().positions_spec() == if i == -1 {
                    s
                } else {
                    match repriced(s[i].0, s[i].1, s[i].2, price@) {
                        Some(v) => s.update(i, v),
                        None => s,
                    }
                }
            }),
    {
        proof {
            use_type_invariant(&*self);
        }
        let mut engine = PaperTradingEngine::new();
        std::mem::swap(&mut engine, &mut self.engine);
        let _ = engine.on_price_update(symbol.as_str(), price);
        self.engine = engine;
        self.record_price(symbol, price);
    }

    /// Buys `quantity` of `symbol` at its last price (see `buy_outcome`);
    /// refused when no price was seen.
    pub fn buy_at(&mut self, symbol: &str, quantity: Dec, now: u64) -> (r: Result<PaperOrder, PaperTradeError>)
        ensures
            final(self).prices_spec() == old(self).prices_spec(),
            !old(self).prices_spec().contains_key(symbol@) ==> (r matches Err(PaperTradeError::NoPrice(s)) && s@
                == symbol@) && final(self).engine_spec() == old(self).engine_spec(),
            old(self).prices_spec().contains_key(symbol@) ==> buy_outcome(
                old(self).engine_spec().portfolio_spec(),
                final(self).engine_spec().portfolio_spec(),
                symbol@,
                quantity@,
                old(self).prices_spec()[symbol@],
                now,
                engine_result(r),
            ) && !(r matches Err(PaperTradeError::NoPrice(_))),
    {
        let price = match self.last_price(symbol) {
            Some(p) => p,
            None => return Err(PaperTradeError::NoPrice(String::from_str(symbol))),
        };
        proof {
            use_type_invariant(&*self);
        }
        let mut engine = PaperTradingEngine::new();
        std::mem::swap(&mut engine, &mut self.engine);
        let res = engine.buy_at(symbol, quantity, price, now);
        self.engine = engine;
        let r = match res {
            Ok(o) => Ok(o),
            Err(e) => Err(PaperTradeError::Refused(e)),
        };
        r
    }

    /// Sells `quantity` of `symbol` at its last price (see `sell_outcome`);
    /// refused when no price was seen.
    pub fn sell_at(&mut self, symbol: &str, quantity: Dec, now: u64) -> (r: Result<PaperOrder, PaperTradeError>)
        ensures
            final(self).prices_spec() == old(self).prices_spec(),
            !old(self).prices_spec().contains_key(symbol@) ==> (r matches Err(PaperTradeError::NoPrice(s)) && s@
                == symbol@) && final(self).engine_spec() == old(self).engine_spec(),
            old(self).prices_spec().contains_key(symbol@) ==> sell_outcome(
                old(self).engine_spec().portfolio_spec(),
                final(self).engine_spec().portfolio_spec(),
                symbol@,
                quantity@,
                old(self).prices_spec()[symbol@],
                now,
                engine_result(r),
            ) && !(r matches Err(PaperTradeError::NoPrice(_))),
    {
        let price = match self.last_price(symbol) {
            Some(p) => p,
            None => return Err(PaperTradeError::NoPrice(String::from_str(symbol))),
        };
        proof {
            use_type_invariant(&*self);
        }
        let mut engine = PaperTradingEngine::new();
        std::mem::swap(&mut engine, &mut self.engine);
        let res = engine.sell_at(symbol, quantity, price, now);
        self.engine = engine;
        let r = match res {
            Ok(o) => Ok(o),
            Err(e) => Err(PaperTradeError::Refused(e)),
        };
        r
    }
}

} // verus!

verus! {

/// The decimal a market value in units of `10^-8` becomes; zero when it is
/// beyond the decimal range.
pub open spec fn price_parts(units: i128) -> (int, nat) {
    if -MAX_MANTISSA <= units <= MAX_MANTISSA {
        (units as int, 8nat)
    } else {
        (0int, 0nat)
    }
}

fn price_dec(units: i128) -> (r: Dec)
    ensures
        r@ == price_parts(units),
{
    if -MAX_MANTISSA <= units && units <= MAX_MANTISSA {
        Dec::from_fixed(units)
    } else {
        Dec::zero()
    }
}

impl PaperTradingState {
    /// A trade or ticker price goes to `on_price` and is reported back
    /// with its symbol; other events change nothing.
    pub fn handle_market_event(&mut self, event: &MarketEvent) -> (r: Option<(String, i128)>)
        ensures
            match *event {
                MarketEvent::PriceUpdate { key, price, .. } => {
                    &&& r matches Some((s, p)) && s@ == key.symbol@ && p == price
                    &&& final(self).prices_spec() == old(self).prices_spec().insert(key.symbol@, price_parts(price))
                },
                MarketEvent::TickerUpdate { key, last_price, .. } => {
                    &&& r matches Some((s, p)) && s@ == key.symbol@ && p == last_price
                    &&& final(self).prices_spec() == old(self).prices_spec().insert(key.symbol@, price_parts(last_price))
                },
                _ => r is None && final(self).prices_spec() == old(self).prices_spec() && final(self).engine_spec()
                    == old(self).engine_spec(),
            },
    {
        match event {
            MarketEvent::PriceUpdate { key, price, .. } => {
                let d = price_dec(*price);
                self.on_price(key.symbol.clone(), d);
                Some((key.symbol.clone(), *price))
            },
            MarketEvent::TickerUpdate { key, last_price, .. } => {
                let d = price_dec(*last_price);
                self.on_price(key.symbol.clone(), d);
                Some((key.symbol.clone(), *last_price))
            },
            _ => None,
        }
    }
}

} // verus!
