//! Markets, symbols and the data streams a subscription carries.

use vstd::prelude::*;
use vstd::string::*;
use crate::text::{chars_of, trim, trim_chars, lower_seq, to_ascii_lower, str_eq, is_ws};

verus! {

/// Exchange market segment.
#[derive(Debug, Clone, Copy, PartialEq, Eq, Structural, Hash)]
pub enum MarketType {
    Spot,
    PerpUsdt,
}

/// A subscription target: market segment and symbol.
#[derive(Debug, Clone, PartialEq, Eq, Hash)]
pub struct MarketKey {
    pub market_type: MarketType,
    pub symbol: String,
}

impl MarketKey {
    pub fn new(market_type: MarketType, symbol: String) -> (r: Self)
        ensures
            r.market_type == market_type,
            r.symbol == symbol,
    {
        MarketKey { market_type, symbol }
    }

    /// A copy of the key.
    pub fn duplicate(&self) -> (r: Self)
        ensures
            r == *self,
    {
        MarketKey { market_type: self.market_type, symbol: self.symbol.clone() }
    }
}

/// A key as plain values.
pub open spec fn key_view(k: MarketKey) -> (MarketType, Seq<char>) {
    (k.market_type, k.symbol@)
}

/// Market data streams a subscription may carry.
#[derive(Debug, Clone, Copy, PartialEq, Eq, Structural, Hash)]
pub enum MarketStream {
    Depth,
    Trade,
    Ticker,
    Kline1d,
    MarkPrice,
    FundingRate,
    OpenInterest,
    ForceOrder,
}

/// Streams that only perpetual markets publish.
pub open spec fn perp_only(s: MarketStream) -> bool {
    s == MarketStream::MarkPrice || s == MarketStream::FundingRate || s == MarketStream::OpenInterest
        || s == MarketStream::ForceOrder
}

/// The streams subscribed by default: depth, trade, ticker and daily
/// klines, plus the perpetual-only streams on perpetual markets.
pub open spec fn default_streams(mt: MarketType) -> Set<MarketStream> {
    Set::new(|s: MarketStream| mt == MarketType::PerpUsdt || !perp_only(s))
}

/// A set of streams.
#[derive(Debug, Clone, Copy, PartialEq, Eq)]
pub struct StreamSet {
    depth: bool,
    trade: bool,
    ticker: bool,
    kline1d: bool,
    mark_price: bool,
    funding_rate: bool,
    open_interest: bool,
    force_order: bool,
}

impl View for StreamSet {
    type V = Set<MarketStream>;

    closed spec fn view(&self) -> Set<MarketStream> {
        Set::new(|s: MarketStream| self.has(s))
    }
}

impl StreamSet {
    closed spec fn has(self, s: MarketStream) -> bool {
        match s {
            MarketStream::Depth => self.depth,
            MarketStream::Trade => self.trade,
            MarketStream::Ticker => self.ticker,
            MarketStream::Kline1d => self.kline1d,
            MarketStream::MarkPrice => self.mark_price,
            MarketStream::FundingRate => self.funding_rate,
            MarketStream::OpenInterest => self.open_interest,
            MarketStream::ForceOrder => self.force_order,
        }
    }

    pub fn new() -> (r: Self)
        ensures
            r@ == Set::<MarketStream>::empty(),
    {
        let r = StreamSet {
            depth: false,
            trade: false,
            ticker: false,
            kline1d: false,
            mark_price: false,
            funding_rate: false,
            open_interest: false,
            force_order: false,
        };
        assert(r@ =~= Set::<MarketStream>::empty());
        r
    }

    pub fn contains(&self, s: MarketStream) -> (r: bool)
        ensures
            r == self@.contains(s),
    {
        match s {
            MarketStream::Depth => self.depth,
            MarketStream::Trade => self.trade,
            MarketStream::Ticker => self.ticker,
            MarketStream::Kline1d => self.kline1d,
            MarketStream::MarkPrice => self.mark_price,
            MarketStream::FundingRate => self.funding_rate,
            MarketStream::OpenInterest => self.open_interest,
            MarketStream::ForceOrder => self.force_order,
        }
    }

    pub fn insert(&mut self, s: MarketStream)
        ensures
            final(self)@ == old(self)@.insert(s),
    {
        match s {
            MarketStream::Depth => self.depth = true,
            MarketStream::Trade => self.trade = true,
            MarketStream::Ticker => self.ticker = true,
            MarketStream::Kline1d => self.kline1d = true,
            MarketStream::MarkPrice => self.mark_price = true,
            MarketStream::FundingRate => self.funding_rate = true,
            MarketStream::OpenInterest => self.open_interest = true,
            MarketStream::ForceOrder => self.force_order = true,
        }
        assert(self@ =~= old(self)@.insert(s));
    }

    /// Adds every stream of `other`.
    pub fn extend(&mut self, other: &StreamSet)
        ensures
            final(self)@ == old(self)@.union(other@),
    {
        self.depth = self.depth || other.depth;
        self.trade = self.trade || other.trade;
        self.ticker = self.ticker || other.ticker;
        self.kline1d = self.kline1d || other.kline1d;
        self.mark_price = self.mark_price || other.mark_price;
        self.funding_rate = self.funding_rate || other.funding_rate;
        self.open_interest = self.open_interest || other.open_interest;
        self.force_order = self.force_order || other.force_order;
        assert(self@ =~= old(self)@.union(other@));
    }

    pub fn is_empty(&self) -> (r: bool)
        ensures
            r == (self@ == Set::<MarketStream>::empty()),
    {
        let r = !(self.depth || self.trade || self.ticker || self.kline1d || self.mark_price
            || self.funding_rate || self.open_interest || self.force_order);
        proof {
            if r {
                assert(self@ =~= Set::<MarketStream>::empty());
            } else {
                if self.depth { assert(self@.contains(MarketStream::Depth)); }
                if self.trade { assert(self@.contains(MarketStream::Trade)); }
                if self.ticker { assert(self@.contains(MarketStream::Ticker)); }
                if self.kline1d { assert(self@.contains(MarketStream::Kline1d)); }
                if self.mark_price { assert(self@.contains(MarketStream::MarkPrice)); }
                if self.funding_rate { assert(self@.contains(MarketStream::FundingRate)); }
                if self.open_interest { assert(self@.contains(MarketStream::OpenInterest)); }
                if self.force_order { assert(self@.contains(MarketStream::ForceOrder)); }
            }
        }
        r
    }

}

impl MarketStream {
    /// The streams subscribed by default on a market.
    pub fn default_streams_for_market(market_type: MarketType) -> (r: StreamSet)
        ensures
            r@ == default_streams(market_type),
    {
        let mut streams = StreamSet::new();
        streams.insert(MarketStream::Depth);
        streams.insert(MarketStream::Trade);
        streams.insert(MarketStream::Ticker);
        streams.insert(MarketStream::Kline1d);
        if market_type == MarketType::PerpUsdt {
            streams.insert(MarketStream::MarkPrice);
            streams.insert(MarketStream::FundingRate);
            streams.insert(MarketStream::OpenInterest);
            streams.insert(MarketStream::ForceOrder);
        }
        assert(streams@ =~= default_streams(market_type));
        streams
    }
}

/// The stream a configured name denotes (trimmed, ASCII case ignored).
pub open spec fn stream_named(name: Seq<char>) -> Option<MarketStream> {
    let n = lower_seq(trim(name));
    if n == "depth"@ || n == "depth@100ms"@ || n == "depth@1000ms"@ {
        Some(MarketStream::Depth)
    } else if n == "trade"@ || n == "aggtrade"@ {
        Some(MarketStream::Trade)
    } else if n == "ticker"@ || n == "24hrticker"@ {
        Some(MarketStream::Ticker)
    } else if n == "kline"@ || n == "kline_1d"@ || n == "kline1d"@ || n == "1d"@ {
        Some(MarketStream::Kline1d)
    } else if n == "markprice"@ {
        Some(MarketStream::MarkPrice)
    } else if n == "fundingrate"@ {
        Some(MarketStream::FundingRate)
    } else if n == "openinterest"@ {
        Some(MarketStream::OpenInterest)
    } else if n == "forceorder"@ || n == "liquidation"@ {
        Some(MarketStream::ForceOrder)
    } else {
        None
    }
}

/// Reads a stream name (see `stream_named`).
pub fn parse_stream(value: &str) -> (r: Option<MarketStream>)
    ensures
        r == stream_named(value@),
{
    let cs = chars_of(value);
    let t = trim_chars(&cs);
    let ts = crate::text::string_from_chars(&t);
    let n = to_ascii_lower(ts.as_str());
    let s = n.as_str();
    if str_eq(s, "depth") || str_eq(s, "depth@100ms") || str_eq(s, "depth@1000ms") {
        Some(MarketStream::Depth)
    } else if str_eq(s, "trade") || str_eq(s, "aggtrade") {
        Some(MarketStream::Trade)
    } else if str_eq(s, "ticker") || str_eq(s, "24hrticker") {
        Some(MarketStream::Ticker)
    } else if str_eq(s, "kline") || str_eq(s, "kline_1d") || str_eq(s, "kline1d") || str_eq(s, "1d") {
        Some(MarketStream::Kline1d)
    } else if str_eq(s, "markprice") {
        Some(MarketStream::MarkPrice)
    } else if str_eq(s, "fundingrate") {
        Some(MarketStream::FundingRate)
    } else if str_eq(s, "openinterest") {
        Some(MarketStream::OpenInterest)
    } else if str_eq(s, "forceorder") || str_eq(s, "liquidation") {
        Some(MarketStream::ForceOrder)
    } else {
        None
    }
}

impl std::str::FromStr for MarketStream {
    type Err = ();

    fn from_str(value: &str) -> (r: Result<Self, Self::Err>)
        ensures
            match stream_named(value@) {
                Some(s) => r == Ok::<MarketStream, ()>(s),
                None => r is Err,
            },
    {
        match parse_stream(value) {
            Some(s) => Ok(s),
            None => Err(()),
        }
    }
}

/// The streams a market configuration asks for: the named ones (unknown
/// names and, on spot, perpetual-only streams ignored), or the defaults when
/// none is named or none remains.
pub open spec fn resolved_streams(mt: MarketType, names: Seq<Seq<char>>) -> Set<MarketStream> {
    let named = Set::new(
        |s: MarketStream|
            exists|i: int|
                0 <= i < names.len() && stream_named(#[trigger] names[i]) == Some(s) && !(mt
                    == MarketType::Spot && perp_only(s)),
    );
    if names.len() == 0 || named == Set::<MarketStream>::empty() {
        default_streams(mt)
    } else {
        named
    }
}

pub fn resolve_streams(market_type: MarketType, streams: &Vec<String>) -> (r: StreamSet)
    ensures
        r@ == resolved_streams(market_type, streams@.map_values(|s: String| s@)),
{
    let ghost names = streams@.map_values(|s: String| s@);
    if streams.len() == 0 {
        return MarketStream::default_streams_for_market(market_type);
    }
    let mut resolved = StreamSet::new();
    let mut i: usize = 0;
    while i < streams.len()
        invariant
            i <= streams@.len(),
            names == streams@.map_values(|s: String| s@),
            forall|s: MarketStream|
                resolved@.contains(s) <==> exists|j: int|
                    0 <= j < i && stream_named(#[trigger] names[j]) == Some(s) && !(market_type
                        == MarketType::Spot && perp_only(s)),
        decreases streams@.len() - i,
    {
        let parsed = parse_stream(streams[i].as_str());
        proof {
            assert(names[i as int] == streams@[i as int]@);
        }
        match parsed {
            Some(s) => {
                let is_perp_only = s == MarketStream::MarkPrice || s == MarketStream::FundingRate
                    || s == MarketStream::OpenInterest || s == MarketStream::ForceOrder;
                if !(market_type == MarketType::Spot && is_perp_only) {
                    resolved.insert(s);
                }
            },
            None => {},
        }
        proof {
            assert forall|t: MarketStream|
                resolved@.contains(t) <==> exists|j: int|
                    0 <= j < i + 1 && stream_named(#[trigger] names[j]) == Some(t) && !(market_type
                        == MarketType::Spot && perp_only(t)) by {
                if exists|j: int|
                    0 <= j < i + 1 && stream_named(#[trigger] names[j]) == Some(t) && !(market_type
                        == MarketType::Spot && perp_only(t)) {
                    let j = choose|j: int|
                        0 <= j < i + 1 && stream_named(#[trigger] names[j]) == Some(t) && !(
                        market_type == MarketType::Spot && perp_only(t));
                    if j < i {
                    }
                }
            }
        }
        i = i + 1;
    }
    let ghost named = Set::new(
        |s: MarketStream|
            exists|i: int|
                0 <= i < names.len() && stream_named(#[trigger] names[i]) == Some(s) && !(market_type
                    == MarketType::Spot && perp_only(s)),
    );
    proof {
        assert(resolved@ =~= named);
    }
    if resolved.is_empty() {
        MarketStream::default_streams_for_market(market_type)
    } else {
        resolved
    }
}

/// Market type chosen from a command-line market name.
pub open spec fn market_type_named(market: Seq<char>) -> MarketType {
    let m = lower_seq(market);
    if m == "perp"@ || m == "perp_usdt"@ || m == "perp-usdt"@ {
        MarketType::PerpUsdt
    } else {
        MarketType::Spot
    }
}

/// "perp", "perp_usdt" and "perp-usdt" (any ASCII case) select the
/// perpetual market; anything else selects spot.
pub fn market_type_from_name(market: &str) -> (r: MarketType)
    ensures
        r == market_type_named(market@),
{
    let m = to_ascii_lower(market);
    let s = m.as_str();
    if str_eq(s, "perp") || str_eq(s, "perp_usdt") || str_eq(s, "perp-usdt") {
        MarketType::PerpUsdt
    } else {
        MarketType::Spot
    }
}

} // verus!
