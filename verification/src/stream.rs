//! Exchange payloads, subscription requests and the routing of stream
//! messages by their stream name and event type.

use vstd::prelude::*;
use vstd::string::*;
use crate::text::{contains_str, contains_seq, split_chars, split_on, string_from_chars, str_eq,
    push_char, to_lowercase, unicode_lower};
use crate::fixed::{decimal, format_u64};

verus! {

/// State of a market data connection.
#[derive(Debug, Clone, PartialEq, Eq)]
pub enum ConnectionStatus {
    Disconnected,
    Connecting,
    Connected,
    Reconnecting,
    Error(String),
}

/// A listed trading pair.
#[derive(Debug, Clone)]
pub struct Symbol {
    pub symbol: String,
    pub base_asset: String,
    pub quote_asset: String,
}

/// The exchange's listing of trading pairs.
#[derive(Debug)]
pub struct ExchangeInfo {
    pub symbols: Vec<Symbol>,
}

/// The exchange's clock reading.
#[derive(Debug)]
pub struct TimeResponse {
    pub server_time: u64,
}

/// The stream parameter of a request: the symbol in lowercase, '@', and
/// the stream type ("btcusdt@depth").
pub open spec fn stream_param(symbol: Seq<char>, stream_type: Seq<char>) -> Seq<char> {
    unicode_lower(symbol) + seq!['@'] + stream_type
}

fn stream_param_string(symbol: &str, stream_type: &str) -> (r: String)
    ensures
        r@ == stream_param(symbol@, stream_type@),
{
    let mut s = to_lowercase(symbol);
    push_char(&mut s, '@');
    s.append(stream_type);
    s
}

/// A subscription request for one stream.
#[derive(Debug)]
pub struct SubscribeRequest {
    pub method: String,
    pub params: Vec<String>,
    pub id: u64,
}

impl SubscribeRequest {
    /// A `SUBSCRIBE` request with the single parameter
    /// `stream_param(symbol, stream_type)` and id 1.
    pub fn new(symbol: &str, stream_type: &str) -> (r: Self)
        ensures
            r.method@ == "SUBSCRIBE"@,
            r.params@.len() == 1,
            r.params@[0]@ == stream_param(symbol@, stream_type@),
            r.id == 1,
    {
        SubscribeRequest {
            method: String::from_str("SUBSCRIBE"),
            params: vec![stream_param_string(symbol, stream_type)],
            id: 1,
        }
    }
}

/// A request to drop one stream.
#[derive(Debug)]
pub struct UnsubscribeRequest {
    pub method: String,
    pub params: Vec<String>,
    pub id: u64,
}

impl UnsubscribeRequest {
    /// An `UNSUBSCRIBE` request with the single parameter
    /// `stream_param(symbol, stream_type)` and id 1.
    pub fn new(symbol: &str, stream_type: &str) -> (r: Self)
        ensures
            r.method@ == "UNSUBSCRIBE"@,
            r.params@.len() == 1,
            r.params@[0]@ == stream_param(symbol@, stream_type@),
            r.id == 1,
    {
        UnsubscribeRequest {
            method: String::from_str("UNSUBSCRIBE"),
            params: vec![stream_param_string(symbol, stream_type)],
            id: 1,
        }
    }
}

/// A trade print.
#[derive(Debug, Clone)]
pub struct TradeMessage {
    pub event_type: String,
    pub event_time: u64,
    pub symbol: String,
    pub trade_id: u64,
    pub price: String,
    pub quantity: String,
    pub trade_time: u64,
    pub is_buyer_maker: bool,
}

/// Rolling 24-hour statistics of a pair.
#[derive(Debug, Clone)]
pub struct Ticker24hr {
    pub event_type: String,
    pub event_time: u64,
    pub symbol: String,
    pub price_change: String,
    pub price_change_percent: String,
    pub weighted_avg_price: String,
    pub last_price: String,
    pub last_quantity: String,
    pub open_price: String,
    pub high_price: String,
    pub low_price: String,
    pub volume: String,
    pub quote_volume: String,
    pub open_time: u64,
    pub close_time: u64,
    pub first_trade_id: u64,
    pub last_trade_id: u64,
    pub total_trades: u64,
}

/// A kline stream event.
#[derive(Debug, Clone)]
pub struct KlineStreamEvent {
    pub event_type: String,
    pub event_time: u64,
    pub symbol: String,
    pub kline: KlineData,
}

/// One candle of a kline stream.
#[derive(Debug, Clone)]
pub struct KlineData {
    pub start_time: u64,
    pub close_time: u64,
    pub symbol: String,
    pub interval: String,
    pub first_trade_id: u64,
    pub last_trade_id: u64,
    pub open: String,
    pub close: String,
    pub high: String,
    pub low: String,
    pub volume: String,
    pub number_of_trades: u64,
    pub is_final: bool,
    pub quote_volume: String,
    pub taker_buy_base_volume: String,
    pub taker_buy_quote_volume: String,
    pub ignore: String,
}

/// Event types named by a payload's `e` field.
#[derive(Debug, Clone, Copy, PartialEq, Eq, Structural)]
pub enum BinanceEventType {
    DepthUpdate,
    Trade,
    Ticker24hr,
    Kline,
    AggregatedTrade,
}

/// The event type that an `e` field names, if any.
pub open spec fn event_type_named(e: Seq<char>) -> Option<BinanceEventType> {
    if e == "depthUpdate"@ {
        Some(BinanceEventType::DepthUpdate)
    } else if e == "trade"@ {
        Some(BinanceEventType::Trade)
    } else if e == "24hrTicker"@ {
        Some(BinanceEventType::Ticker24hr)
    } else if e == "kline"@ {
        Some(BinanceEventType::Kline)
    } else if e == "aggTrade"@ {
        Some(BinanceEventType::AggregatedTrade)
    } else {
        None
    }
}

/// Classifies a payload by its `e` field (absent or not a string: `None`).
pub fn classify_message(event_field: Option<&str>) -> (r: Option<BinanceEventType>)
    ensures
        r == (match event_field {
            Some(e) => event_type_named(e@),
            None => None,
        }),
{
    match event_field {
        None => None,
        Some(e) => {
            if str_eq(e, "depthUpdate") {
                Some(BinanceEventType::DepthUpdate)
            } else if str_eq(e, "trade") {
                Some(BinanceEventType::Trade)
            } else if str_eq(e, "24hrTicker") {
                Some(BinanceEventType::Ticker24hr)
            } else if str_eq(e, "kline") {
                Some(BinanceEventType::Kline)
            } else if str_eq(e, "aggTrade") {
                Some(BinanceEventType::AggregatedTrade)
            } else {
                None
            }
        },
    }
}

/// Coarse kinds of stream messages, by stream name.
#[derive(Debug, Clone, Copy, PartialEq, Eq, Structural)]
pub enum MessageType {
    DepthUpdate,
    Trade,
    Ticker24hr,
    Other,
}

/// The first of "@depth", "@trade", "@ticker" that the stream name holds.
pub open spec fn message_type_of(stream: Seq<char>) -> MessageType {
    if contains_seq(stream, "@depth"@) {
        MessageType::DepthUpdate
    } else if contains_seq(stream, "@trade"@) {
        MessageType::Trade
    } else if contains_seq(stream, "@ticker"@) {
        MessageType::Ticker24hr
    } else {
        MessageType::Other
    }
}

impl MessageType {
    pub fn from_stream(stream: &str) -> (r: Self)
        ensures
            r == message_type_of(stream@),
    {
        if contains_str(stream, "@depth") {
            MessageType::DepthUpdate
        } else if contains_str(stream, "@trade") {
            MessageType::Trade
        } else if contains_str(stream, "@ticker") {
            MessageType::Ticker24hr
        } else {
            MessageType::Other
        }
    }
}

/// Splits "btcusdt@depth" into symbol and stream type; a name without
/// exactly one '@' gives `None`.
pub fn parse_stream_name(stream_name: &str) -> (r: Option<(String, String)>)
    ensures
        split_on(stream_name@, '@').len() == 2 <==> r is Some,
        r matches Some((sym, kind)) ==> sym@ == split_on(stream_name@, '@')[0] && kind@
            == split_on(stream_name@, '@')[1],
{
    let parts = split_chars(stream_name, '@');
    proof {
        assert(parts@.map_values(|v: Vec<char>| v@).len() == parts@.len());
    }
    if parts.len() == 2 {
        proof {
            assert(parts@.map_values(|v: Vec<char>| v@)[0] == parts@[0]@);
            assert(parts@.map_values(|v: Vec<char>| v@)[1] == parts@[1]@);
        }
        Some((string_from_chars(&parts[0]), string_from_chars(&parts[1])))
    } else {
        None
    }
}

/// The stream label a received payload is filed under: the payload's
/// symbol in lowercase with "@depth", "@trade" or "@ticker" for those
/// events, "kline" and "aggTrade" for those, "unknown" otherwise.
pub open spec fn stream_label_of(event: Option<BinanceEventType>, symbol: Seq<char>) -> Seq<char> {
    match event {
        Some(BinanceEventType::DepthUpdate) => unicode_lower(symbol) + "@depth"@,
        Some(BinanceEventType::Trade) => unicode_lower(symbol) + "@trade"@,
        Some(BinanceEventType::Ticker24hr) => unicode_lower(symbol) + "@ticker"@,
        Some(BinanceEventType::Kline) => "kline"@,
        Some(BinanceEventType::AggregatedTrade) => "aggTrade"@,
        None => "unknown"@,
    }
}

pub fn stream_label(event: Option<BinanceEventType>, symbol: &str) -> (r: String)
    ensures
        r@ == stream_label_of(event, symbol@),
{
    match event {
        Some(BinanceEventType::DepthUpdate) => {
            let mut s = to_lowercase(symbol);
            s.append("@depth");
            s
        },
        Some(BinanceEventType::Trade) => {
            let mut s = to_lowercase(symbol);
            s.append("@trade");
            s
        },
        Some(BinanceEventType::Ticker24hr) => {
            let mut s = to_lowercase(symbol);
            s.append("@ticker");
            s
        },
        Some(BinanceEventType::Kline) => String::from_str("kline"),
        Some(BinanceEventType::AggregatedTrade) => String::from_str("aggTrade"),
        None => String::from_str("unknown"),
    }
}

/// The depth stream type for an update speed: 100 ms or 1000 ms (the
/// default); other speeds are refused with
/// "Unsupported depth update speed: <n>ms. Supported: 100ms, 1000ms".
pub fn depth_stream_type(update_speed_ms: Option<u16>) -> (r: Result<&'static str, String>)
    ensures
        update_speed_ms == Some(100u16) ==> (r matches Ok(t) && t@ == "depth@100ms"@),
        (update_speed_ms == Some(1000u16) || update_speed_ms is None) ==> (r matches Ok(t) && t@ == "depth"@),
        update_speed_ms is Some && update_speed_ms->0 != 100 && update_speed_ms->0 != 1000 ==> (r matches Err(
            m,
        ) && m@ == "Unsupported depth update speed: "@ + decimal(update_speed_ms->0 as nat)
            + "ms. Supported: 100ms, 1000ms"@),
{
    match update_speed_ms {
        Some(100) => Ok("depth@100ms"),
        Some(1000) | None => Ok("depth"),
        Some(n) => {
            let mut m = String::from_str("Unsupported depth update speed: ");
            m.append(format_u64(n as u64).as_str());
            m.append("ms. Supported: 100ms, 1000ms");
            Err(m)
        },
    }
}

/// A WebSocket frame that carries no text payload.
#[derive(Debug, Clone, Copy, PartialEq, Eq, Structural)]
pub enum ControlFrame {
    Ping,
    Pong,
    Close,
    Binary,
}

/// Why a received frame yields no message.
#[derive(Debug, Clone)]
pub enum FrameError {
    /// The peer closed the connection
    ConnectionError(String),
    /// The frame is of a kind that is not handled
    ParseError(String),
}

/// What a frame without a text payload is filed as: a ping under "ping"
/// (it is answered with a pong), a pong under "pong"; a close frame is a
/// connection error and a binary frame is not handled.
pub fn process_control_frame(frame: ControlFrame) -> (r: Result<String, FrameError>)
    ensures
        match frame {
            ControlFrame::Ping => r matches Ok(s) && s@ == "ping"@,
            ControlFrame::Pong => r matches Ok(s) && s@ == "pong"@,
            ControlFrame::Close => r matches Err(FrameError::ConnectionError(m)) && m@ == "Connection closed"@,
            ControlFrame::Binary => r matches Err(FrameError::ParseError(m)) && m@
                == "Unsupported message type"@,
        },
{
    match frame {
        ControlFrame::Ping => Ok(String::from_str("ping")),
        ControlFrame::Pong => Ok(String::from_str("pong")),
        ControlFrame::Close => Err(FrameError::ConnectionError(String::from_str("Connection closed"))),
        ControlFrame::Binary => Err(FrameError::ParseError(String::from_str("Unsupported message type"))),
    }
}

/// Milliseconds without a valid message after which the connection counts
/// as dead.
pub const HEARTBEAT_TIMEOUT_MS: u64 = 30_000;

/// Milliseconds between pings sent to keep the connection alive.
pub const PING_INTERVAL_MS: u64 = 10_000;

/// Milliseconds between two heartbeat checks.
pub const HEARTBEAT_CHECK_MS: u64 = 5_000;

/// When the connection last showed life and when it was last pinged.
#[derive(Debug, Clone, Copy, PartialEq, Eq, Structural)]
pub struct HeartbeatState {
    pub last_heartbeat: u64,
    pub last_ping: u64,
}

/// What the heartbeat watch is told: a valid message arrived, or the
/// periodic check is due.
#[derive(Debug, Clone, Copy, PartialEq, Eq, Structural)]
pub enum HeartbeatEvent {
    ValidMessage,
    Tick,
}

/// What the connection loop does next.
#[derive(Debug, Clone, Copy, PartialEq, Eq, Structural)]
pub enum HeartbeatAction {
    Idle,
    SendPing,
    ReportTimeout,
}

impl HeartbeatState {
    /// A watch started at `now`: alive and just pinged.
    pub fn new(now: u64) -> (r: Self)
        ensures
            r.last_heartbeat == now,
            r.last_ping == now,
    {
        HeartbeatState { last_heartbeat: now, last_ping: now }
    }
}

/// The heartbeat decision at `now`: a valid message refreshes the heartbeat;
/// at a check, over 30 s of silence is a timeout, else over 10 s since the
/// last ping calls for a ping (stamped now); otherwise nothing happens.
pub open spec fn heartbeat_next(state: HeartbeatState, event: HeartbeatEvent, now: u64) -> (
    HeartbeatState,
    HeartbeatAction,
) {
    match event {
        HeartbeatEvent::ValidMessage => (HeartbeatState { last_heartbeat: now, ..state }, HeartbeatAction::Idle),
        HeartbeatEvent::Tick => if now - state.last_heartbeat > HEARTBEAT_TIMEOUT_MS {
            (state, HeartbeatAction::ReportTimeout)
        } else if now - state.last_ping > PING_INTERVAL_MS {
            (HeartbeatState { last_ping: now, ..state }, HeartbeatAction::SendPing)
        } else {
            (state, HeartbeatAction::Idle)
        },
    }
}

/// One step of the heartbeat watch (see `heartbeat_next`).
pub fn heartbeat_step(state: HeartbeatState, event: HeartbeatEvent, now_ms: u64) -> (r: (
    HeartbeatState,
    HeartbeatAction,
))
    ensures
        r == heartbeat_next(state, event, now_ms),
{
    match event {
        HeartbeatEvent::ValidMessage => (HeartbeatState { last_heartbeat: now_ms, last_ping: state.last_ping }, HeartbeatAction::Idle),
        HeartbeatEvent::Tick => {
            if now_ms > state.last_heartbeat && now_ms - state.last_heartbeat > HEARTBEAT_TIMEOUT_MS {
                (state, HeartbeatAction::ReportTimeout)
            } else if now_ms > state.last_ping && now_ms - state.last_ping > PING_INTERVAL_MS {
                (HeartbeatState { last_heartbeat: state.last_heartbeat, last_ping: now_ms }, HeartbeatAction::SendPing)
            } else {
                (state, HeartbeatAction::Idle)
            }
        },
    }
}

/// A connection that keeps delivering valid messages never times out: after
/// a valid message at `t`, a check at `now` within 30 s of `t` reports no
/// timeout.
pub proof fn lemma_fresh_message_prevents_timeout(state: HeartbeatState, t: u64, now: u64)
    requires
        now <= t + HEARTBEAT_TIMEOUT_MS,
    ensures
        heartbeat_next(heartbeat_next(state, HeartbeatEvent::ValidMessage, t).0, HeartbeatEvent::Tick, now).1
            != HeartbeatAction::ReportTimeout,
{
}

/// Kinds of transport failures, as far as reconnection cares.
#[derive(Debug, Clone, Copy, PartialEq, Eq, Structural)]
pub enum TransportErrorKind {
    ConnectionClosed,
    AlreadyClosed,
    Io,
    Tls,
    Other,
}

/// Whether a transport failure calls for a new connection: a closed
/// connection, an I/O or a TLS failure.
pub fn requires_reconnection(kind: TransportErrorKind) -> (r: bool)
    ensures
        r == (kind != TransportErrorKind::Other),
{
    match kind {
        TransportErrorKind::ConnectionClosed => true,
        TransportErrorKind::AlreadyClosed => true,
        TransportErrorKind::Io => true,
        TransportErrorKind::Tls => true,
        TransportErrorKind::Other => false,
    }
}

} // verus!
