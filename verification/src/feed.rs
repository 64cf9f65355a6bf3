//! What one symbol subscription decides. The application connects, reads
//! the stream, parses each payload by its stream kind and hands it here;
//! this module updates the book and the candle series and says which market
//! event goes out and whether a fresh depth snapshot is needed.

use vstd::prelude::*;
use vstd::string::*;
use crate::candles::{DailyCandle, FieldError, build_daily_candle, candle_result, event_texts,
    five_result, parse_five, upsert_candle, upserted, DEFAULT_DAILY_CANDLE_LIMIT};
use crate::fixed::{fixed_value, parse_fixed};
use crate::market::{MarketKey, MarketStream, MarketType, StreamSet};
use crate::orderbook::{OrderBook, OrderBookUpdate, OrderBookError, DepthSnapshot, SnapshotError,
    ErrorSeverity, depth_update_result, snapshot_result, book_unchanged, error_text, severity_spec,
    requires_resync_spec};
use crate::stream::{ConnectionStatus, KlineStreamEvent, Ticker24hr, TradeMessage};
use crate::text::{contains_seq, contains_str, str_eq};

verus! {

/// Mark price and funding of a perpetual pair.
#[derive(Debug, Clone)]
pub struct MarkPriceUpdate {
    pub event_type: String,
    pub event_time: u64,
    pub symbol: String,
    pub mark_price: String,
    pub index_price: String,
    pub estimated_settle_price: String,
    pub funding_rate: String,
    pub next_funding_time: u64,
}

/// A funding rate settlement.
#[derive(Debug, Clone)]
pub struct FundingRateUpdate {
    pub event_type: String,
    pub event_time: u64,
    pub symbol: String,
    pub funding_rate: String,
    pub funding_time: u64,
}

/// Open interest of a perpetual pair.
#[derive(Debug, Clone)]
pub struct OpenInterestStream {
    pub open_interest: String,
    pub symbol: String,
    pub time: u64,
}

/// The order of a liquidation.
#[derive(Debug, Clone)]
pub struct ForceOrderData {
    pub symbol: String,
    pub side: String,
    pub price: String,
    pub original_quantity: String,
}

/// A liquidation event.
#[derive(Debug, Clone)]
pub struct ForceOrder {
    pub event_type: String,
    pub event_time: u64,
    pub order: ForceOrderData,
}

/// What the market data layer reports; values in units of `10^-8`.
#[derive(Debug)]
pub enum MarketEvent {
    PriceUpdate { key: MarketKey, price: i128, time: u64 },
    TickerUpdate {
        key: MarketKey,
        last_price: i128,
        price_change_percent: i128,
        high_price: i128,
        low_price: i128,
        volume: i128,
    },
    OrderBookUpdate { key: MarketKey, orderbook: OrderBook },
    ConnectionStatus { key: MarketKey, status: ConnectionStatus },
    Error { key: MarketKey, error: String },
    DailyCandleUpdate { key: MarketKey, candles: Vec<DailyCandle>, is_snapshot: bool },
    MarkPriceUpdate {
        key: MarketKey,
        mark_price: i128,
        index_price: i128,
        funding_rate: i128,
        next_funding_time: u64,
        event_time: u64,
    },
    FundingRateUpdate { key: MarketKey, funding_rate: i128, funding_time: u64, event_time: u64 },
    OpenInterestUpdate { key: MarketKey, open_interest: i128, event_time: u64 },
    Liquidation { key: MarketKey, side: String, price: i128, quantity: i128, event_time: u64 },
}

/// How a stream message is routed, by its stream name.
#[derive(Debug, Clone, Copy, PartialEq, Eq, Structural)]
pub enum StreamKind {
    Depth,
    Trade,
    Ticker,
    Kline,
    MarkPrice,
    ForceOrder,
    OpenInterest,
    FundingRate,
    Unhandled,
}

/// The first of "depth", "trade", "ticker", "kline", "markPrice",
/// "forceOrder", "openInterest", "fundingRate" that the name holds.
pub open spec fn stream_kind_of(s: Seq<char>) -> StreamKind {
    if contains_seq(s, "depth"@) {
        StreamKind::Depth
    } else if contains_seq(s, "trade"@) {
        StreamKind::Trade
    } else if contains_seq(s, "ticker"@) {
        StreamKind::Ticker
    } else if contains_seq(s, "kline"@) {
        StreamKind::Kline
    } else if contains_seq(s, "markPrice"@) {
        StreamKind::MarkPrice
    } else if contains_seq(s, "forceOrder"@) {
        StreamKind::ForceOrder
    } else if contains_seq(s, "openInterest"@) {
        StreamKind::OpenInterest
    } else if contains_seq(s, "fundingRate"@) {
        StreamKind::FundingRate
    } else {
        StreamKind::Unhandled
    }
}

pub fn stream_kind(stream: &str) -> (r: StreamKind)
    ensures
        r == stream_kind_of(stream@),
{
    if contains_str(stream, "depth") {
        StreamKind::Depth
    } else if contains_str(stream, "trade") {
        StreamKind::Trade
    } else if contains_str(stream, "ticker") {
        StreamKind::Ticker
    } else if contains_str(stream, "kline") {
        StreamKind::Kline
    } else if contains_str(stream, "markPrice") {
        StreamKind::MarkPrice
    } else if contains_str(stream, "forceOrder") {
        StreamKind::ForceOrder
    } else if contains_str(stream, "openInterest") {
        StreamKind::OpenInterest
    } else if contains_str(stream, "fundingRate") {
        StreamKind::FundingRate
    } else {
        StreamKind::Unhandled
    }
}

/// A stream payload, parsed according to its stream kind.
#[derive(Debug)]
pub enum FeedMessage {
    Depth(OrderBookUpdate),
    Trade(TradeMessage),
    Ticker(Ticker24hr),
    Kline(KlineStreamEvent),
    MarkPrice(MarkPriceUpdate),
    ForceOrder(ForceOrder),
    OpenInterest(OpenInterestStream),
    FundingRate(FundingRateUpdate),
}

/// What handling a message calls for.
#[derive(Debug)]
pub struct FeedOutcome {
    /// The event to publish, if any.
    pub event: Option<MarketEvent>,
    /// Whether a fresh depth snapshot must be fetched.
    pub resync: bool,
}

/// The 24-hour statistics a ticker carries, read as decimals.
#[derive(Debug, Clone, Copy, PartialEq, Eq, Structural)]
pub struct TickerStats {
    pub last_price: i128,
    pub price_change_percent: i128,
    pub high_price: i128,
    pub low_price: i128,
    pub volume: i128,
}

/// The ticker texts in reading order, and their names.
pub open spec fn ticker_texts(t: Ticker24hr) -> Seq<Seq<char>> {
    seq![t.last_price@, t.price_change_percent@, t.high_price@, t.low_price@, t.volume@]
}

pub open spec fn ticker_field_names() -> Seq<Seq<char>> {
    seq!["last_price"@, "price_change_percent"@, "high_price"@, "low_price"@, "volume"@]
}

/// Reads a ticker's statistics; the first field that does not read is
/// reported.
pub fn parse_ticker_stats(ticker: &Ticker24hr) -> (r: Result<TickerStats, FieldError>)
    ensures
        exists|p: Result<(i128, i128, i128, i128, i128), FieldError>|
            #[trigger] five_result(ticker_texts(*ticker), ticker_field_names(), p) && match p {
                Ok(v) => r == Ok::<TickerStats, FieldError>(
                    TickerStats {
                        last_price: v.0,
                        price_change_percent: v.1,
                        high_price: v.2,
                        low_price: v.3,
                        volume: v.4,
                    },
                ),
                Err(e) => r == Err::<TickerStats, FieldError>(e),
            },
{
    let p = parse_five(
        (
            ticker.last_price.as_str(),
            ticker.price_change_percent.as_str(),
            ticker.high_price.as_str(),
            ticker.low_price.as_str(),
            ticker.volume.as_str(),
        ),
        ("last_price", "price_change_percent", "high_price", "low_price", "volume"),
    );
    proof {
        reveal_strlit("last_price");
        reveal_strlit("price_change_percent");
        reveal_strlit("high_price");
        reveal_strlit("low_price");
        reveal_strlit("volume");
        assert(seq!["last_price"@, "price_change_percent"@, "high_price"@, "low_price"@, "volume"@]
            =~= ticker_field_names());
        assert(five_result(ticker_texts(*ticker), ticker_field_names(), p));
    }
    match p {
        Ok(v) => Ok(
            TickerStats {
                last_price: v.0,
                price_change_percent: v.1,
                high_price: v.2,
                low_price: v.3,
                volume: v.4,
            },
        ),
        Err(e) => Err(e),
    }
}

/// The state of one symbol subscription.
pub struct SymbolFeed {
    pub key: MarketKey,
    pub orderbook: OrderBook,
    pub daily_candles: Vec<DailyCandle>,
    pub daily_candle_limit: usize,
    pub enabled_streams: StreamSet,
}

/// The event a depth update leads to: the book after a good update; on a
/// failed one an error event when the error is at least an `Error`, and a
/// resync when the error calls for one and the depth stream is enabled.
pub open spec fn depth_outcome(post: SymbolFeed, res: Result<(), OrderBookError>, out: FeedOutcome) -> bool {
    match res {
        Ok(_) => {
            &&& !out.resync
            &&& out.event matches Some(MarketEvent::OrderBookUpdate { key, orderbook })
            &&& key == post.key
            &&& book_unchanged(orderbook, post.orderbook)
        },
        Err(e) => error_outcome(post, e, out),
    }
}

pub open spec fn error_outcome(f: SymbolFeed, e: OrderBookError, out: FeedOutcome) -> bool {
    &&& out.resync == (requires_resync_spec(e) && f.enabled_streams@.contains(MarketStream::Depth))
    &&& if severity_spec(e) == ErrorSeverity::Error || severity_spec(e) == ErrorSeverity::Critical {
        out.event matches Some(MarketEvent::Error { key, error }) && key == f.key && error@ == error_text(e)
    } else {
        out.event is None
    }
}

/// What a depth update does to the feed and what it publishes.
pub open spec fn depth_message_outcome(pre: SymbolFeed, post: SymbolFeed, u: OrderBookUpdate, out: FeedOutcome) -> bool {
    exists|res: Result<(), OrderBookError>|
        #[trigger] depth_update_result(pre.orderbook, post.orderbook, u, res) && rest_unchanged(pre, post)
            && depth_outcome(post, res, out)
}

/// Everything but the book is unchanged.
pub open spec fn rest_unchanged(a: SymbolFeed, b: SymbolFeed) -> bool {
    &&& a.key == b.key
    &&& a.daily_candles@ == b.daily_candles@
    &&& a.daily_candle_limit == b.daily_candle_limit
    &&& a.enabled_streams == b.enabled_streams
}

/// Nothing changed.
pub open spec fn feed_unchanged(a: SymbolFeed, b: SymbolFeed) -> bool {
    rest_unchanged(a, b) && book_unchanged(a.orderbook, b.orderbook)
}

/// What a kline event does: non-daily intervals and unreadable candles are
/// ignored; otherwise the candle goes into the series and is published.
pub open spec fn kline_outcome(pre: SymbolFeed, post: SymbolFeed, e: KlineStreamEvent, out: FeedOutcome) -> bool {
    &&& !out.resync
    &&& if e.kline.interval@ != "1d"@ {
        feed_unchanged(pre, post) && out.event is None
    } else {
        exists|r: Result<DailyCandle, FieldError>|
            #[trigger] candle_result(e.kline.start_time, e.kline.close_time, event_texts(e), e.kline.is_final, r)
                && match r {
                Ok(c) => {
                    &&& post.daily_candles@ == upserted(pre.daily_candles@, c, pre.daily_candle_limit as nat)
                    &&& post.key == pre.key && post.daily_candle_limit == pre.daily_candle_limit
                    &&& post.enabled_streams == pre.enabled_streams
                    &&& book_unchanged(pre.orderbook, post.orderbook)
                    &&& out.event matches Some(MarketEvent::DailyCandleUpdate { key, candles, is_snapshot })
                    &&& key == pre.key && candles@ == seq![c] && !is_snapshot
                },
                Err(_) => feed_unchanged(pre, post) && out.event is None,
            }
    }
}

/// What one message does to the feed and what it publishes.
pub open spec fn message_outcome(pre: SymbolFeed, post: SymbolFeed, msg: FeedMessage, out: FeedOutcome) -> bool {
    match msg {
        FeedMessage::Depth(u) => depth_message_outcome(pre, post, u, out),
        FeedMessage::Kline(e) => kline_outcome(pre, post, e, out),
        _ => feed_unchanged(pre, post) && !out.resync && match msg {
            FeedMessage::Trade(t) => match fixed_value(t.price@) {
                Some(p) => out.event matches Some(MarketEvent::PriceUpdate { key, price, time }) && key == pre.key
                    && price == p && time == t.event_time,
                None => out.event is None,
            },
            FeedMessage::Ticker(t) => if forall|i: int| 0 <= i < 5 ==> #[trigger] fixed_value(ticker_texts(t)[i]) is Some {
                out.event matches Some(
                    MarketEvent::TickerUpdate { key, last_price, price_change_percent, high_price, low_price, volume },
                ) && key == pre.key && last_price == fixed_value(t.last_price@)->0 && price_change_percent == fixed_value(
                    t.price_change_percent@,
                )->0 && high_price == fixed_value(t.high_price@)->0 && low_price == fixed_value(t.low_price@)->0 && volume == fixed_value(
                    t.volume@,
                )->0
            } else {
                out.event is None
            },
            FeedMessage::MarkPrice(u) => if fixed_value(u.mark_price@) is Some && fixed_value(u.index_price@) is Some && fixed_value(
                u.funding_rate@,
            ) is Some {
                out.event matches Some(
                    MarketEvent::MarkPriceUpdate {
                        key,
                        mark_price,
                        index_price,
                        funding_rate,
                        next_funding_time,
                        event_time,
                    },
                ) && key == pre.key && mark_price == fixed_value(u.mark_price@)->0 && index_price == fixed_value(u.index_price@)->0
                    && funding_rate == fixed_value(u.funding_rate@)->0 && next_funding_time == u.next_funding_time
                    && event_time == u.event_time
            } else {
                out.event is None
            },
            FeedMessage::ForceOrder(f) => if fixed_value(f.order.price@) is Some && fixed_value(f.order.original_quantity@) is Some {
                out.event matches Some(MarketEvent::Liquidation { key, side, price, quantity, event_time })
                    && key == pre.key && side@ == f.order.side@ && price == fixed_value(f.order.price@)->0 && quantity
                    == fixed_value(f.order.original_quantity@)->0 && event_time == f.event_time
            } else {
                out.event is None
            },
            FeedMessage::OpenInterest(o) => match fixed_value(o.open_interest@) {
                Some(v) => out.event matches Some(MarketEvent::OpenInterestUpdate { key, open_interest, event_time })
                    && key == pre.key && open_interest == v && event_time == o.time,
                None => out.event is None,
            },
            FeedMessage::FundingRate(f) => match fixed_value(f.funding_rate@) {
                Some(v) => out.event matches Some(
                    MarketEvent::FundingRateUpdate { key, funding_rate, funding_time, event_time },
                ) && key == pre.key && funding_rate == v && funding_time == f.funding_time && event_time
                    == f.event_time,
                None => out.event is None,
            },
            _ => true,
        },
    }
}

/// What a fresh snapshot does: a feed without the depth stream ignores it;
/// otherwise it replaces the book and, when it reads, the book is published.
pub open spec fn resync_outcome(
    pre: SymbolFeed,
    post: SymbolFeed,
    snapshot: DepthSnapshot,
    now: u64,
    r: Result<Option<MarketEvent>, SnapshotError>,
) -> bool {
    if !pre.enabled_streams@.contains(MarketStream::Depth) {
        feed_unchanged(pre, post) && r matches Ok(None)
    } else {
        exists|res: Result<(), SnapshotError>|
            #[trigger] snapshot_result(pre.orderbook, post.orderbook, snapshot, now, res) && rest_unchanged(pre, post)
                && match res {
                Ok(_) => r matches Ok(Some(MarketEvent::OrderBookUpdate { key, orderbook })) && key == pre.key
                    && book_unchanged(orderbook, post.orderbook),
                Err(e) => r == Err::<Option<MarketEvent>, SnapshotError>(e),
            }
    }
}

/// The streams a subscription opens, in the order it opens them: depth,
/// trade, ticker and daily klines when enabled, then on perpetual markets
/// mark price, liquidations, open interest and funding rate when enabled.
pub open spec fn subscription_order(mt: MarketType, streams: Set<MarketStream>) -> Seq<MarketStream> {
    let one = |s: MarketStream| if streams.contains(s) { seq![s] } else { Seq::<MarketStream>::empty() };
    let common = one(MarketStream::Depth) + one(MarketStream::Trade) + one(MarketStream::Ticker) + one(
        MarketStream::Kline1d,
    );
    if mt == MarketType::PerpUsdt {
        common + one(MarketStream::MarkPrice) + one(MarketStream::ForceOrder) + one(MarketStream::OpenInterest)
            + one(MarketStream::FundingRate)
    } else {
        common
    }
}

fn push_if(v: &mut Vec<MarketStream>, streams: &StreamSet, s: MarketStream)
    ensures
        final(v)@ == old(v)@ + (if streams@.contains(s) { seq![s] } else { Seq::<MarketStream>::empty() }),
{
    if streams.contains(s) {
        v.push(s);
        assert(final(v)@ =~= old(v)@ + seq![s]);
    } else {
        assert(v@ =~= old(v)@ + Seq::<MarketStream>::empty());
    }
}

fn copy_candles(v: &Vec<DailyCandle>) -> (r: Vec<DailyCandle>)
    ensures
        r@ == v@,
{
    let mut out: Vec<DailyCandle> = Vec::new();
    let mut i: usize = 0;
    while i < v.len()
        invariant
            i <= v@.len(),
            out@ == v@.subrange(0, i as int),
        decreases v@.len() - i,
    {
        out.push(v[i]);
        proof {
            assert(out@ =~= v@.subrange(0, i + 1));
        }
        i = i + 1;
    }
    proof {
        assert(out@ =~= v@);
    }
    out
}

fn nothing() -> (r: FeedOutcome)
    ensures
        r.event is None,
        !r.resync,
{
    FeedOutcome { event: None, resync: false }
}

fn publish(e: MarketEvent) -> (r: FeedOutcome)
    ensures
        r.event == Some(e),
        !r.resync,
{
    FeedOutcome { event: Some(e), resync: false }
}

impl SymbolFeed {
    /// A feed for one key with an empty book and no candles.
    pub fn new(market_type: MarketType, symbol: String, streams: StreamSet) -> (r: Self)
        ensures
            r.key.market_type == market_type,
            r.key.symbol@ == symbol@,
            r.orderbook.symbol@ == symbol@,
            r.orderbook.bids@ == Map::<int, int>::empty(),
            r.orderbook.asks@ == Map::<int, int>::empty(),
            r.orderbook.last_update_id == 0,
            r.daily_candles@.len() == 0,
            r.daily_candle_limit == DEFAULT_DAILY_CANDLE_LIMIT,
            r.enabled_streams == streams,
    {
        let key = MarketKey { market_type, symbol: symbol.clone() };
        SymbolFeed {
            key,
            orderbook: OrderBook::new(symbol),
            daily_candles: Vec::new(),
            daily_candle_limit: DEFAULT_DAILY_CANDLE_LIMIT,
            enabled_streams: streams,
        }
    }

    /// The outcome of an order book error (see `error_outcome`).
    pub fn handle_orderbook_error(&self, err: OrderBookError) -> (r: FeedOutcome)
        ensures
            error_outcome(*self, err, r),
    {
        let severity = err.severity();
        let resync = err.requires_resync() && self.enabled_streams.contains(MarketStream::Depth);
        let event = match severity {
            ErrorSeverity::Error | ErrorSeverity::Critical => Some(
                MarketEvent::Error { key: self.key.duplicate(), error: err.message() },
            ),
            _ => None,
        };
        FeedOutcome { event, resync }
    }

    /// Puts a daily candle into the series (see `upserted`).
    pub fn upsert_daily_candle(&mut self, candle: DailyCandle) -> (r: DailyCandle)
        ensures
            r == candle,
            final(self).daily_candles@ == upserted(
                old(self).daily_candles@,
                candle,
                old(self).daily_candle_limit as nat,
            ),
            final(self).daily_candle_limit == old(self).daily_candle_limit,
            final(self).key == old(self).key,
            final(self).enabled_streams == old(self).enabled_streams,
            book_unchanged(final(self).orderbook, old(self).orderbook),
    {
        upsert_candle(&mut self.daily_candles, self.daily_candle_limit, candle)
    }

    /// Handles a kline event (see `kline_outcome`).
    pub fn handle_kline_event(&mut self, event: KlineStreamEvent) -> (r: FeedOutcome)
        ensures
            kline_outcome(*old(self), *final(self), event, r),
    {
        if !str_eq(event.kline.interval.as_str(), "1d") {
            return nothing();
        }
        let built = build_daily_candle(&event);
        proof {
            assert(candle_result(
                event.kline.start_time,
                event.kline.close_time,
                event_texts(event),
                event.kline.is_final,
                built,
            ));
        }
        match built {
            Ok(candle) => {
                let updated = self.upsert_daily_candle(candle);
                let candles = vec![updated];
                assert(candles@ =~= seq![candle]);
                publish(
                    MarketEvent::DailyCandleUpdate {
                        key: self.key.duplicate(),
                        candles,
                        is_snapshot: false,
                    },
                )
            },
            Err(_) => nothing(),
        }
    }

    /// Applies a depth update and says what it leads to (see `depth_outcome`).
    pub fn handle_depth_update(&mut self, u: OrderBookUpdate) -> (r: FeedOutcome)
        ensures
            depth_message_outcome(*old(self), *final(self), u, r),
    {
        let res = self.orderbook.apply_depth_update(u);
        proof {
            assert(depth_update_result(old(self).orderbook, self.orderbook, u, res));
        }
        match res {
            Ok(_) => {
                let key = self.key.duplicate();
                let orderbook = self.orderbook.duplicate();
                let out = publish(MarketEvent::OrderBookUpdate { key, orderbook });
                proof {
                    assert(book_unchanged(orderbook, self.orderbook));
                    assert(depth_outcome(*self, res, out));
                    assert(rest_unchanged(*old(self), *self));
                }
                out
            },
            Err(e) => self.handle_orderbook_error(e),
        }
    }

    /// Puts a fresh depth snapshot taken at `now` in place (see `resync_outcome`).
    pub fn resync_with_snapshot(&mut self, snapshot: DepthSnapshot, now: u64) -> (r: Result<
        Option<MarketEvent>,
        SnapshotError,
    >)
        ensures
            resync_outcome(*old(self), *final(self), snapshot, now, r),
    {
        if !self.enabled_streams.contains(MarketStream::Depth) {
            return Ok(None);
        }
        let res = self.orderbook.update_from_snapshot_at(snapshot, now);
        proof {
            assert(snapshot_result(old(self).orderbook, self.orderbook, snapshot, now, res));
        }
        match res {
            Ok(_) => {
                let key = self.key.duplicate();
                let orderbook = self.orderbook.duplicate();
                proof {
                    assert(book_unchanged(orderbook, self.orderbook));
                }
                Ok(Some(MarketEvent::OrderBookUpdate { key, orderbook }))
            },
            Err(e) => Err(e),
        }
    }

    /// Takes the preloaded daily candles; an empty list is refused with
    /// "no candles returned for <symbol>" and leaves the feed as it was.
    pub fn load_daily_candles(&mut self, candles: Vec<DailyCandle>) -> (r: Result<MarketEvent, String>)
        ensures
            candles@.len() == 0 ==> feed_unchanged(*old(self), *final(self)) && (r matches Err(m) && m@
                == "no candles returned for "@ + old(self).key.symbol@),
            candles@.len() > 0 ==> {
                &&& final(self).daily_candles@ == candles@
                &&& final(self).key == old(self).key
                &&& final(self).daily_candle_limit == old(self).daily_candle_limit
                &&& final(self).enabled_streams == old(self).enabled_streams
                &&& book_unchanged(final(self).orderbook, old(self).orderbook)
                &&& r matches Ok(MarketEvent::DailyCandleUpdate { key, candles: c, is_snapshot })
                &&& key == old(self).key && c@ == candles@ && is_snapshot
            },
    {
        if candles.len() == 0 {
            let mut m = String::from_str("no candles returned for ");
            m.append(self.key.symbol.as_str());
            return Err(m);
        }
        let published = copy_candles(&candles);
        self.daily_candles = candles;
        Ok(MarketEvent::DailyCandleUpdate { key: self.key.duplicate(), candles: published, is_snapshot: true })
    }

    /// The streams to open, in order (see `subscription_order`).
    pub fn initial_subscriptions(&self) -> (r: Vec<MarketStream>)
        ensures
            r@ == subscription_order(self.key.market_type, self.enabled_streams@),
    {
        let mut v: Vec<MarketStream> = Vec::new();
        push_if(&mut v, &self.enabled_streams, MarketStream::Depth);
        push_if(&mut v, &self.enabled_streams, MarketStream::Trade);
        push_if(&mut v, &self.enabled_streams, MarketStream::Ticker);
        push_if(&mut v, &self.enabled_streams, MarketStream::Kline1d);
        if self.key.market_type == MarketType::PerpUsdt {
            push_if(&mut v, &self.enabled_streams, MarketStream::MarkPrice);
            push_if(&mut v, &self.enabled_streams, MarketStream::ForceOrder);
            push_if(&mut v, &self.enabled_streams, MarketStream::OpenInterest);
            push_if(&mut v, &self.enabled_streams, MarketStream::FundingRate);
        }
        proof {
            let one = |s: MarketStream| if self.enabled_streams@.contains(s) { seq![s] } else { Seq::<MarketStream>::empty() };
            assert(Seq::<MarketStream>::empty() + one(MarketStream::Depth) =~= one(MarketStream::Depth));
        }
        v
    }

    /// Handles one parsed stream message (see `message_outcome`).
    pub fn handle_message(&mut self, msg: FeedMessage) -> (r: FeedOutcome)
        ensures
            message_outcome(*old(self), *final(self), msg, r),
    {
        match msg {
            FeedMessage::Depth(u) => self.handle_depth_update(u),
            FeedMessage::Trade(t) => match parse_fixed(t.price.as_str()) {
                Some(price) => publish(
                    MarketEvent::PriceUpdate { key: self.key.duplicate(), price, time: t.event_time },
                ),
                None => nothing(),
            },
            FeedMessage::Ticker(t) => {
                let parsed = parse_ticker_stats(&t);
                proof {
                    reveal_strlit("last_price");
                }
                match parsed {
                    Ok(s) => publish(
                        MarketEvent::TickerUpdate {
                            key: self.key.duplicate(),
                            last_price: s.last_price,
                            price_change_percent: s.price_change_percent,
                            high_price: s.high_price,
                            low_price: s.low_price,
                            volume: s.volume,
                        },
                    ),
                    Err(_) => nothing(),
                }
            },
            FeedMessage::Kline(e) => self.handle_kline_event(e),
            FeedMessage::MarkPrice(u) => {
                let m = parse_fixed(u.mark_price.as_str());
                let i = parse_fixed(u.index_price.as_str());
                let f = parse_fixed(u.funding_rate.as_str());
                match (m, i, f) {
                    (Some(mark_price), Some(index_price), Some(funding_rate)) => publish(
                        MarketEvent::MarkPriceUpdate {
                            key: self.key.duplicate(),
                            mark_price,
                            index_price,
                            funding_rate,
                            next_funding_time: u.next_funding_time,
                            event_time: u.event_time,
                        },
                    ),
                    _ => nothing(),
                }
            },
            FeedMessage::ForceOrder(f) => {
                let p = parse_fixed(f.order.price.as_str());
                let q = parse_fixed(f.order.original_quantity.as_str());
                match (p, q) {
                    (Some(price), Some(quantity)) => publish(
                        MarketEvent::Liquidation {
                            key: self.key.duplicate(),
                            side: f.order.side,
                            price,
                            quantity,
                            event_time: f.event_time,
                        },
                    ),
                    _ => nothing(),
                }
            },
            FeedMessage::OpenInterest(o) => match parse_fixed(o.open_interest.as_str()) {
                Some(v) => publish(
                    MarketEvent::OpenInterestUpdate { key: self.key.duplicate(), open_interest: v, event_time: o.time },
                ),
                None => nothing(),
            },
            FeedMessage::FundingRate(f) => match parse_fixed(f.funding_rate.as_str()) {
                Some(v) => publish(
                    MarketEvent::FundingRateUpdate {
                        key: self.key.duplicate(),
                        funding_rate: v,
                        funding_time: f.funding_time,
                        event_time: f.event_time,
                    },
                ),
                None => nothing(),
            },
        }
    }
}


/// Which refused updates call for a fresh snapshot: with the depth stream
/// on, a sequence gap, an unreadable price or quantity, or an invalid update
/// asks for a resync; a stale message or one for another symbol never does,
/// and nothing does with the depth stream off.
pub proof fn lemma_resync_rule(f: SymbolFeed, e: OrderBookError, out: FeedOutcome)
    requires
        error_outcome(f, e, out),
    ensures
        out.resync <==> (f.enabled_streams@.contains(MarketStream::Depth) && !(e is StaleMessage) && !(
        e is SymbolMismatch)),
        (e is SequenceValidationFailed || e is PriceParseError || e is QuantityParseError || e is InvalidUpdate)
            ==> out.event is Some,
        (e is StaleMessage || e is SymbolMismatch) ==> out.event is None,
{
}

/// A depth update that skips ahead of the book (a sequence gap) leaves the
/// book as it was, is reported as an error, and, with the depth stream on,
/// asks for a resync from a fresh snapshot.
pub proof fn lemma_sequence_gap_resyncs(pre: SymbolFeed, post: SymbolFeed, u: OrderBookUpdate, out: FeedOutcome)
    requires
        depth_message_outcome(pre, post, u, out),
        u.symbol@ == pre.orderbook.symbol@,
        pre.orderbook.last_update_id > 0,
        u.first_update_id > pre.orderbook.last_update_id + 1,
    ensures
        out.resync == pre.enabled_streams@.contains(MarketStream::Depth),
        out.event matches Some(MarketEvent::Error { .. }),
        book_unchanged(post.orderbook, pre.orderbook),
{
    let res = choose|res: Result<(), OrderBookError>|
        #[trigger] depth_update_result(pre.orderbook, post.orderbook, u, res) && rest_unchanged(pre, post)
            && depth_outcome(post, res, out);
    assert(res matches Err(OrderBookError::SequenceValidationFailed { .. }));
}

} // verus!
