//! REST endpoints of the spot and perpetual markets: which URL each request
//! goes to. The requests themselves are sent by the application.

use vstd::prelude::*;
use vstd::string::*;
use crate::fixed::{decimal, format_u64};
use crate::stream::Symbol;

verus! {

/// Depth levels asked for when the caller names no limit.
pub const DEFAULT_DEPTH_LIMIT: u32 = 1000;

/// Daily candles asked for when the caller names no limit.
pub const DEFAULT_KLINE_LIMIT: u16 = 90;

/// Most daily candles one request may ask for.
pub const MAX_KLINE_LIMIT: u16 = 1000;

/// The candle count a daily-kline request asks for: the given limit (90 by
/// default) clamped to 1..=1000.
pub open spec fn kline_limit(limit: Option<u16>) -> u16 {
    let l = match limit {
        Some(l) => l,
        None => DEFAULT_KLINE_LIMIT,
    };
    if l < 1 {
        1
    } else if l > MAX_KLINE_LIMIT {
        MAX_KLINE_LIMIT
    } else {
        l
    }
}

pub fn clamped_kline_limit(limit: Option<u16>) -> (r: u16)
    ensures
        r == kline_limit(limit),
{
    let l = match limit {
        Some(l) => l,
        None => DEFAULT_KLINE_LIMIT,
    };
    if l < 1 {
        1
    } else if l > MAX_KLINE_LIMIT {
        MAX_KLINE_LIMIT
    } else {
        l
    }
}

/// `base + path + "?symbol=" + symbol`.
pub open spec fn symbol_query(base: Seq<char>, path: Seq<char>, symbol: Seq<char>) -> Seq<char> {
    base + path + "?symbol="@ + symbol
}

/// The URL of a depth snapshot request under an API prefix.
pub open spec fn depth_url(base: Seq<char>, prefix: Seq<char>, symbol: Seq<char>, limit: Option<u32>) -> Seq<char> {
    let l = match limit {
        Some(l) => l,
        None => DEFAULT_DEPTH_LIMIT,
    };
    symbol_query(base, prefix + "/depth"@, symbol) + "&limit="@ + decimal(l as nat)
}

/// The URL of a daily-kline request under an API prefix.
pub open spec fn klines_url(base: Seq<char>, prefix: Seq<char>, symbol: Seq<char>, limit: Option<u16>) -> Seq<char> {
    symbol_query(base, prefix + "/klines"@, symbol) + "&interval=1d&limit="@ + decimal(
        kline_limit(limit) as nat,
    )
}

fn join3(a: &str, b: &str, c: &str) -> (r: String)
    ensures
        r@ == a@ + b@ + c@,
{
    let mut s = String::from_str(a);
    s.append(b);
    s.append(c);
    s
}

fn query_url(base: &str, path: &str, symbol: &str) -> (r: String)
    ensures
        r@ == symbol_query(base@, path@, symbol@),
{
    let mut s = join3(base, path, "?symbol=");
    s.append(symbol);
    s
}

fn depth_url_string(base: &str, path: &str, symbol: &str, limit: Option<u32>) -> (r: String)
    ensures
        r@ == symbol_query(base@, path@, symbol@) + "&limit="@ + decimal(
            (match limit {
                Some(l) => l,
                None => DEFAULT_DEPTH_LIMIT,
            }) as nat,
        ),
{
    let l = match limit {
        Some(l) => l,
        None => DEFAULT_DEPTH_LIMIT,
    };
    let mut s = query_url(base, path, symbol);
    s.append("&limit=");
    let n = format_u64(l as u64);
    s.append(n.as_str());
    s
}

fn klines_url_string(base: &str, path: &str, symbol: &str, limit: Option<u16>) -> (r: String)
    ensures
        r@ == symbol_query(base@, path@, symbol@) + "&interval=1d&limit="@ + decimal(
            kline_limit(limit) as nat,
        ),
{
    let l = clamped_kline_limit(limit);
    let mut s = query_url(base, path, symbol);
    s.append("&interval=1d&limit=");
    let n = format_u64(l as u64);
    s.append(n.as_str());
    s
}

/// Client of the spot market's REST API (`/api/v3`).
#[derive(Debug, Clone)]
pub struct BinanceRestClient {
    pub base_url: String,
}

impl BinanceRestClient {
    pub fn new(base_url: String) -> (r: Self)
        ensures
            r.base_url == base_url,
    {
        BinanceRestClient { base_url }
    }

    pub fn depth_snapshot_url(&self, symbol: &str, limit: Option<u32>) -> (r: String)
        ensures
            r@ == depth_url(self.base_url@, "/api/v3"@, symbol@, limit),
    {
        let r = depth_url_string(self.base_url.as_str(), "/api/v3/depth", symbol, limit);
        proof {
            reveal_strlit("/api/v3/depth");
            reveal_strlit("/api/v3");
            reveal_strlit("/depth");
            assert("/api/v3/depth"@ =~= "/api/v3"@ + "/depth"@);
        }
        r
    }

    pub fn daily_klines_url(&self, symbol: &str, limit: Option<u16>) -> (r: String)
        ensures
            r@ == klines_url(self.base_url@, "/api/v3"@, symbol@, limit),
    {
        let r = klines_url_string(self.base_url.as_str(), "/api/v3/klines", symbol, limit);
        proof {
            reveal_strlit("/api/v3/klines");
            reveal_strlit("/api/v3");
            reveal_strlit("/klines");
            assert("/api/v3/klines"@ =~= "/api/v3"@ + "/klines"@);
        }
        r
    }

    pub fn ticker_24hr_url(&self, symbol: &str) -> (r: String)
        ensures
            r@ == symbol_query(self.base_url@, "/api/v3/ticker/24hr"@, symbol@),
    {
        query_url(self.base_url.as_str(), "/api/v3/ticker/24hr", symbol)
    }

    pub fn exchange_info_url(&self) -> (r: String)
        ensures
            r@ == self.base_url@ + "/api/v3/exchangeInfo"@,
    {
        let mut s = String::from_str(self.base_url.as_str());
        s.append("/api/v3/exchangeInfo");
        s
    }

    pub fn server_time_url(&self) -> (r: String)
        ensures
            r@ == self.base_url@ + "/api/v3/time"@,
    {
        let mut s = String::from_str(self.base_url.as_str());
        s.append("/api/v3/time");
        s
    }

    /// Whether `symbol` is among the listed pairs (what the symbol check
    /// answers once the exchange listing has been fetched).
    pub fn validate_symbol(symbols: &Vec<Symbol>, symbol: &str) -> (r: bool)
        ensures
            r == exists|i: int| 0 <= i < symbols@.len() && #[trigger] symbols@[i].symbol@ == symbol@,
    {
        let mut i: usize = 0;
        while i < symbols.len()
            invariant
                i <= symbols@.len(),
                forall|j: int| 0 <= j < i ==> #[trigger] symbols@[j].symbol@ != symbol@,
            decreases symbols@.len() - i,
        {
            if crate::text::str_eq(symbols[i].symbol.as_str(), symbol) {
                return true;
            }
            i = i + 1;
        }
        false
    }
}

/// Client of the USDⓈ-M perpetual market's REST API (`/fapi/v1`).
#[derive(Debug, Clone)]
pub struct BinancePerpRestClient {
    pub base_url: String,
}

impl BinancePerpRestClient {
    pub fn new(base_url: String) -> (r: Self)
        ensures
            r.base_url == base_url,
    {
        BinancePerpRestClient { base_url }
    }

    pub fn depth_snapshot_url(&self, symbol: &str, limit: Option<u32>) -> (r: String)
        ensures
            r@ == depth_url(self.base_url@, "/fapi/v1"@, symbol@, limit),
    {
        let r = depth_url_string(self.base_url.as_str(), "/fapi/v1/depth", symbol, limit);
        proof {
            reveal_strlit("/fapi/v1/depth");
            reveal_strlit("/fapi/v1");
            reveal_strlit("/depth");
            assert("/fapi/v1/depth"@ =~= "/fapi/v1"@ + "/depth"@);
        }
        r
    }

    pub fn daily_klines_url(&self, symbol: &str, limit: Option<u16>) -> (r: String)
        ensures
            r@ == klines_url(self.base_url@, "/fapi/v1"@, symbol@, limit),
    {
        let r = klines_url_string(self.base_url.as_str(), "/fapi/v1/klines", symbol, limit);
        proof {
            reveal_strlit("/fapi/v1/klines");
            reveal_strlit("/fapi/v1");
            reveal_strlit("/klines");
            assert("/fapi/v1/klines"@ =~= "/fapi/v1"@ + "/klines"@);
        }
        r
    }

    pub fn premium_index_url(&self, symbol: &str) -> (r: String)
        ensures
            r@ == symbol_query(self.base_url@, "/fapi/v1/premiumIndex"@, symbol@),
    {
        query_url(self.base_url.as_str(), "/fapi/v1/premiumIndex", symbol)
    }
}

/// The REST client of one market.
#[derive(Debug, Clone)]
pub enum RestClientWrapper {
    Spot(BinanceRestClient),
    PerpUsdt(BinancePerpRestClient),
}

/// The API prefix of a client's market.
pub open spec fn api_prefix(c: RestClientWrapper) -> Seq<char> {
    match c {
        RestClientWrapper::Spot(_) => "/api/v3"@,
        RestClientWrapper::PerpUsdt(_) => "/fapi/v1"@,
    }
}

pub open spec fn base_of(c: RestClientWrapper) -> Seq<char> {
    match c {
        RestClientWrapper::Spot(s) => s.base_url@,
        RestClientWrapper::PerpUsdt(p) => p.base_url@,
    }
}

impl RestClientWrapper {
    pub fn new_spot(base_url: String) -> (r: Self)
        ensures
            r matches RestClientWrapper::Spot(c) && c.base_url == base_url,
    {
        RestClientWrapper::Spot(BinanceRestClient::new(base_url))
    }

    pub fn new_perp_usdt(base_url: String) -> (r: Self)
        ensures
            r matches RestClientWrapper::PerpUsdt(c) && c.base_url == base_url,
    {
        RestClientWrapper::PerpUsdt(BinancePerpRestClient::new(base_url))
    }

    /// Where a depth snapshot of `symbol` is fetched.
    pub fn depth_snapshot_url(&self, symbol: &str, limit: Option<u32>) -> (r: String)
        ensures
            r@ == depth_url(base_of(*self), api_prefix(*self), symbol@, limit),
    {
        match self {
            RestClientWrapper::Spot(c) => c.depth_snapshot_url(symbol, limit),
            RestClientWrapper::PerpUsdt(c) => c.depth_snapshot_url(symbol, limit),
        }
    }

    /// Where the daily klines of `symbol` are fetched.
    pub fn daily_klines_url(&self, symbol: &str, limit: Option<u16>) -> (r: String)
        ensures
            r@ == klines_url(base_of(*self), api_prefix(*self), symbol@, limit),
    {
        match self {
            RestClientWrapper::Spot(c) => c.daily_klines_url(symbol, limit),
            RestClientWrapper::PerpUsdt(c) => c.daily_klines_url(symbol, limit),
        }
    }
}

/// Stand-in for the REST API in tests: every request gets the same small
/// order book answer.
#[derive(Debug, Clone)]
pub struct MockRestClient {
    pub base_url: String,
}

impl MockRestClient {
    pub fn new(base_url: String) -> (r: Self)
        ensures
            r.base_url == base_url,
    {
        MockRestClient { base_url }
    }

    /// The answer to any request.
    pub fn response(&self) -> (r: String)
        ensures
            r@ == "{\"lastUpdateId\": 123456, \"bids\": [[\"50000.0\", \"1.0\"]], \"asks\": [[\"50100.0\", \"1.0\"]]}"@,
    {
        String::from_str("{\"lastUpdateId\": 123456, \"bids\": [[\"50000.0\", \"1.0\"]], \"asks\": [[\"50100.0\", \"1.0\"]]}")
    }

    /// The request path of an order book snapshot.
    pub fn orderbook_snapshot_path(&self, symbol: &str) -> (r: String)
        ensures
            r@ == "/api/v3/depth?symbol="@ + symbol@ + "&limit=1000"@,
    {
        let mut p = String::from_str("/api/v3/depth?symbol=");
        p.append(symbol);
        p.append("&limit=1000");
        p
    }
}

} // verus!
