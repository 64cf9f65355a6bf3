//! The stream demonstration: what each received message does to the order
//! book and the counters, and what is worth reporting. The program prints
//! the notices.

use vstd::prelude::*;
use vstd::string::*;
use crate::fixed::{fixed_value, parse_fixed};
use crate::orderbook::{OrderBook, OrderBookError, OrderBookUpdate, depth_update_result, requires_resync_spec};
use crate::stream::{MessageType, TradeMessage};

verus! {

/// A received message, read according to its stream's message type.
#[derive(Debug)]
pub enum DemoMessage {
    /// The transport failed with this error text
    Failed(String),
    /// A depth update, `None` when its payload did not read
    Depth(Option<OrderBookUpdate>),
    /// A trade, `None` when its payload did not read
    Trade(Option<TradeMessage>),
    /// A 24-hour ticker on this stream
    Ticker(String),
    /// Any other message on this stream
    Other(String),
}

/// What is worth printing about a message.
#[derive(Debug)]
pub enum DemoNotice {
    ReceiveError(String),
    ParseFailure(MessageType),
    Ticker(String),
    Other(String),
    Trade { count: u64, symbol: String, price: i128, quantity: i128, is_buyer_maker: bool },
    UpdateApplied { count: u64 },
    ConsistencyFailed(OrderBookError),
    StaleMessage(OrderBookError),
    CriticalError(OrderBookError),
}

/// The outcome of one message: what to print, whether to fetch a fresh
/// snapshot, and the error that ends the demonstration, if any.
#[derive(Debug)]
pub struct DemoStep {
    pub notices: Vec<DemoNotice>,
    pub resync: bool,
    pub failure: Option<String>,
}

/// The counters of a demonstration. The trade volume and the last trade
/// price are in units of `10^-8`.
#[derive(Debug, Clone, Copy, PartialEq, Eq, Structural)]
pub struct MessageStats {
    pub message_count: u64,
    pub update_count: u64,
    pub trade_count: u64,
    pub error_count: u64,
    pub total_trade_volume: i128,
    pub last_trade_price: Option<i128>,
}

/// `a + b` held within the range of `i128`.
pub open spec fn clamped_sum(a: i128, b: i128) -> i128 {
    if a + b > i128::MAX {
        i128::MAX
    } else if a + b < i128::MIN {
        i128::MIN
    } else {
        (a + b) as i128
    }
}

/// A decimal text in units of `10^-8`, zero when it does not read.
pub open spec fn units_or_zero(s: Seq<char>) -> i128 {
    match fixed_value(s) {
        Some(v) => if i128::MIN <= v <= i128::MAX {
            v as i128
        } else {
            0
        },
        None => 0,
    }
}

/// Whether a count is one that gets reported: the first five, then every tenth.
pub open spec fn reported(count: u64) -> bool {
    count <= 5 || count % 10 == 0
}

/// Counts and reports received messages, and keeps the book up to date.
#[derive(Debug)]
pub struct MessageProcessor {
    pub stats: MessageStats,
}

/// What processing a message does to the counters and the book, and what
/// it reports (see the clauses of each message kind).
pub open spec fn step_result(
    pre: MessageStats,
    post: MessageStats,
    book_pre: OrderBook,
    book_post: OrderBook,
    msg: DemoMessage,
    step: DemoStep,
) -> bool {
    let received = (pre.message_count + 1) as u64;
    match msg {
        DemoMessage::Failed(e) => {
            &&& post == (MessageStats { message_count: received, error_count: (pre.error_count + 1) as u64, ..pre })
            &&& step.failure matches Some(t) && t@ == e@
            &&& !step.resync
            &&& step.notices@.len() == (if post.error_count <= 3 { 1int } else { 0 })
            &&& post.error_count <= 3 ==> (step.notices@[0] matches DemoNotice::ReceiveError(t) && t@ == e@)
            &&& book_post == book_pre
        },
        DemoMessage::Depth(None) => {
            &&& post == (MessageStats { message_count: received, error_count: (pre.error_count + 1) as u64, ..pre })
            &&& step.failure is None && !step.resync
            &&& step.notices@.len() == (if pre.error_count <= 3 { 1int } else { 0 })
            &&& pre.error_count <= 3 ==> (step.notices@[0] matches DemoNotice::ParseFailure(MessageType::DepthUpdate))
            &&& book_post == book_pre
        },
        DemoMessage::Trade(None) => {
            &&& post == (MessageStats { message_count: received, error_count: (pre.error_count + 1) as u64, ..pre })
            &&& step.failure is None && !step.resync
            &&& step.notices@.len() == (if pre.error_count <= 3 { 1int } else { 0 })
            &&& pre.error_count <= 3 ==> (step.notices@[0] matches DemoNotice::ParseFailure(MessageType::Trade))
            &&& book_post == book_pre
        },
        DemoMessage::Ticker(stream) => {
            &&& post == (MessageStats { message_count: received, ..pre })
            &&& step.failure is None && !step.resync
            &&& step.notices@.len() == (if received <= 3 { 1int } else { 0 })
            &&& received <= 3 ==> (step.notices@[0] matches DemoNotice::Ticker(s) && s@ == stream@)
            &&& book_post == book_pre
        },
        DemoMessage::Other(stream) => {
            &&& post == (MessageStats { message_count: received, ..pre })
            &&& step.failure is None && !step.resync
            &&& step.notices@.len() == (if received <= 3 { 1int } else { 0 })
            &&& received <= 3 ==> (step.notices@[0] matches DemoNotice::Other(s) && s@ == stream@)
            &&& book_post == book_pre
        },
        DemoMessage::Trade(Some(t)) => {
            let count = (pre.trade_count + 1) as u64;
            let price = units_or_zero(t.price@);
            let quantity = units_or_zero(t.quantity@);
            &&& post == (MessageStats {
                message_count: received,
                trade_count: count,
                last_trade_price: Some(price),
                total_trade_volume: clamped_sum(pre.total_trade_volume, quantity),
                ..pre
            })
            &&& step.failure is None && !step.resync
            &&& step.notices@.len() == (if reported(count) { 1int } else { 0 })
            &&& reported(count) ==> (step.notices@[0] matches DemoNotice::Trade {
                count: c,
                symbol: s,
                price: p,
                quantity: q,
                is_buyer_maker: m,
            } && c == count && s@ == t.symbol@ && p == price && q == quantity && m == t.is_buyer_maker)
            &&& book_post == book_pre
        },
        DemoMessage::Depth(Some(u)) => {
            let count = (pre.update_count + 1) as u64;
            exists|res: Result<(), OrderBookError>|
                #[trigger] depth_update_result(book_pre, book_post, u, res) && match res {
                    Ok(()) => {
                        &&& post.message_count == received && post.update_count == count
                        &&& post.trade_count == pre.trade_count
                        &&& post.total_trade_volume == pre.total_trade_volume
                        &&& post.last_trade_price == pre.last_trade_price
                        &&& step.failure is None && !step.resync
                        &&& post.error_count == pre.error_count || post.error_count == pre.error_count + 1
                        &&& post.error_count == pre.error_count + 1 <==> (count % 10 == 0 && step.notices@.len() > 0
                            && step.notices@.last() is ConsistencyFailed)
                        &&& step.notices@.len() == (if reported(count) { 1int } else { 0 }) + (
                        if post.error_count == pre.error_count + 1 {
                            1int
                        } else {
                            0
                        })
                        &&& reported(count) ==> (step.notices@[0] matches DemoNotice::UpdateApplied { count: c }
                            && c == count)
                    },
                    Err(e) => {
                        &&& post == (MessageStats {
                            message_count: received,
                            update_count: count,
                            error_count: (pre.error_count + 1) as u64,
                            ..pre
                        })
                        &&& step.failure is None
                        &&& (e is StaleMessage) ==> !step.resync && step.notices@.len() == (
                        if post.error_count <= 3 {
                            1int
                        } else {
                            0
                        }) && (post.error_count <= 3 ==> step.notices@[0] is StaleMessage)
                        &&& !(e is StaleMessage) ==> step.resync == requires_resync_spec(e) && step.notices@.len() == 1
                            && step.notices@[0] is CriticalError
                    },
                }
        },
    }
}

impl MessageProcessor {
    /// All counters zero, no trade seen.
    pub fn new() -> (r: Self)
        ensures
            r.stats == (MessageStats {
                message_count: 0,
                update_count: 0,
                trade_count: 0,
                error_count: 0,
                total_trade_volume: 0,
                last_trade_price: None,
            }),
    {
        MessageProcessor {
            stats: MessageStats {
                message_count: 0,
                update_count: 0,
                trade_count: 0,
                error_count: 0,
                total_trade_volume: 0,
                last_trade_price: None,
            },
        }
    }

    /// The counters.
    pub fn get_stats(&self) -> (r: MessageStats)
        ensures
            r == self.stats,
    {
        self.stats
    }

    /// Processes one message (see `step_result`).
    pub fn process_message(&mut self, msg: DemoMessage, book: &mut OrderBook) -> (r: DemoStep)
        requires
            old(self).stats.message_count < u64::MAX,
            old(self).stats.update_count < u64::MAX,
            old(self).stats.trade_count < u64::MAX,
            old(self).stats.error_count < u64::MAX - 1,
        ensures
            step_result(old(self).stats, final(self).stats, *old(book), *final(book), msg, r),
    {
        self.stats.message_count = self.stats.message_count + 1;
        let mut notices: Vec<DemoNotice> = Vec::new();
        match msg {
            DemoMessage::Failed(e) => {
                self.stats.error_count = self.stats.error_count + 1;
                if self.stats.error_count <= 3 {
                    notices.push(DemoNotice::ReceiveError(e.clone()));
                }
                DemoStep { notices, resync: false, failure: Some(e) }
            },
            DemoMessage::Depth(None) => {
                if self.stats.error_count <= 3 {
                    notices.push(DemoNotice::ParseFailure(MessageType::DepthUpdate));
                }
                self.stats.error_count = self.stats.error_count + 1;
                DemoStep { notices, resync: false, failure: None }
            },
            DemoMessage::Trade(None) => {
                if self.stats.error_count <= 3 {
                    notices.push(DemoNotice::ParseFailure(MessageType::Trade));
                }
                self.stats.error_count = self.stats.error_count + 1;
                DemoStep { notices, resync: false, failure: None }
            },
            DemoMessage::Ticker(stream) => {
                if self.stats.message_count <= 3 {
                    notices.push(DemoNotice::Ticker(stream));
                }
                DemoStep { notices, resync: false, failure: None }
            },
            DemoMessage::Other(stream) => {
                if self.stats.message_count <= 3 {
                    notices.push(DemoNotice::Other(stream));
                }
                DemoStep { notices, resync: false, failure: None }
            },
            DemoMessage::Trade(Some(t)) => {
                self.stats.trade_count = self.stats.trade_count + 1;
                let price = match parse_fixed(t.price.as_str()) {
                    Some(p) => p,
                    None => 0,
                };
                let quantity = match parse_fixed(t.quantity.as_str()) {
                    Some(q) => q,
                    None => 0,
                };
                self.stats.last_trade_price = Some(price);
                let v = self.stats.total_trade_volume;
                self.stats.total_trade_volume = if quantity > 0 && v > i128::MAX - quantity {
                    i128::MAX
                } else if quantity < 0 && v < i128::MIN - quantity {
                    i128::MIN
                } else {
                    v + quantity
                };
                let count = self.stats.trade_count;
                if count <= 5 || count % 10 == 0 {
                    notices.push(
                        DemoNotice::Trade {
                            count,
                            symbol: t.symbol,
                            price,
                            quantity,
                            is_buyer_maker: t.is_buyer_maker,
                        },
                    );
                }
                DemoStep { notices, resync: false, failure: None }
            },
            DemoMessage::Depth(Some(u)) => {
                self.stats.update_count = self.stats.update_count + 1;
                let ghost u0 = u;
                let res = book.apply_depth_update(u);
                let ghost res0 = res;
                let mut resync = false;
                match res {
                    Ok(()) => {
                        let count = self.stats.update_count;
                        if count <= 5 || count % 10 == 0 {
                            notices.push(DemoNotice::UpdateApplied { count });
                        }
                        if count % 10 == 0 {
                            match book.validate_consistency() {
                                Ok(()) => {},
                                Err(e) => {
                                    notices.push(DemoNotice::ConsistencyFailed(e));
                                    self.stats.error_count = self.stats.error_count + 1;
                                },
                            }
                        }
                    },
                    Err(e) => {
                        self.stats.error_count = self.stats.error_count + 1;
                        let stale = match &e {
                            OrderBookError::StaleMessage { .. } => true,
                            _ => false,
                        };
                        if stale {
                            if self.stats.error_count <= 3 {
                                notices.push(DemoNotice::StaleMessage(e));
                            }
                        } else {
                            resync = e.requires_resync();
                            notices.push(DemoNotice::CriticalError(e));
                        }
                    },
                }
                proof {
                    assert(depth_update_result(*old(book), *book, u0, res0));
                }
                DemoStep { notices, resync, failure: None }
            },
        }
    }
}

} // verus!
