//! A stand-in for the exchange stream in tests: a connection state machine
//! and the messages it plays back.

use vstd::prelude::*;
use vstd::string::*;
use crate::feed::FeedMessage;
use crate::orderbook::OrderBookUpdate;
use crate::stream::{ConnectionStatus, TradeMessage};
use crate::text::{to_lowercase, unicode_lower};

verus! {

/// Why a mock connection refused a request.
#[derive(Debug, Clone, Copy, PartialEq, Eq, Structural)]
pub enum MockConnectionError {
    AlreadyConnected,
    NotConnected,
}

impl MockConnectionError {
    pub fn message(&self) -> (r: &'static str)
        ensures
            r@ == (match *self {
                MockConnectionError::AlreadyConnected => "Already connected"@,
                MockConnectionError::NotConnected => "Not connected"@,
            }),
    {
        match self {
            MockConnectionError::AlreadyConnected => "Already connected",
            MockConnectionError::NotConnected => "Not connected",
        }
    }
}

/// A mock stream connection: connected or not.
#[derive(Debug)]
pub struct MockWebSocket {
    url: String,
    connected: bool,
}

impl MockWebSocket {
    pub closed spec fn connected_spec(self) -> bool {
        self.connected
    }

    pub closed spec fn url_spec(self) -> Seq<char> {
        self.url@
    }

    /// The address the connection is for.
    pub fn url(&self) -> (r: &str)
        ensures
            r@ == self.url_spec(),
    {
        self.url.as_str()
    }

    /// A disconnected connection to `url`.
    pub fn new(url: String) -> (r: Self)
        ensures
            r.url_spec() == url@,
            !r.connected_spec(),
    {
        MockWebSocket { url, connected: false }
    }

    /// `Connected` when connected, else `Disconnected`.
    pub fn status(&self) -> (r: ConnectionStatus)
        ensures
            r == (if self.connected_spec() {
                ConnectionStatus::Connected
            } else {
                ConnectionStatus::Disconnected
            }),
    {
        if self.connected {
            ConnectionStatus::Connected
        } else {
            ConnectionStatus::Disconnected
        }
    }

    pub fn is_connected(&self) -> (r: bool)
        ensures
            r == self.connected_spec(),
    {
        self.connected
    }

    /// Connects; refused when already connected.
    pub fn connect(&mut self) -> (r: Result<(), MockConnectionError>)
        ensures
            old(self).connected_spec() ==> r == Err::<(), MockConnectionError>(MockConnectionError::AlreadyConnected)
                && final(self).connected_spec(),
            !old(self).connected_spec() ==> r is Ok && final(self).connected_spec(),
            final(self).url_spec() == old(self).url_spec(),
    {
        if self.connected {
            return Err(MockConnectionError::AlreadyConnected);
        }
        self.connected = true;
        Ok(())
    }

    /// Disconnects; refused when not connected.
    pub fn disconnect(&mut self) -> (r: Result<(), MockConnectionError>)
        ensures
            !old(self).connected_spec() ==> r == Err::<(), MockConnectionError>(MockConnectionError::NotConnected)
                && !final(self).connected_spec(),
            old(self).connected_spec() ==> r is Ok && !final(self).connected_spec(),
            final(self).url_spec() == old(self).url_spec(),
    {
        if !self.connected {
            return Err(MockConnectionError::NotConnected);
        }
        self.connected = false;
        Ok(())
    }

    /// Subscribes to a stream; refused when not connected.
    pub fn subscribe(&self, symbol: &str, stream_type: &str) -> (r: Result<(), MockConnectionError>)
        ensures
            r == (if self.connected_spec() {
                Ok::<(), MockConnectionError>(())
            } else {
                Err(MockConnectionError::NotConnected)
            }),
    {
        if self.connected {
            Ok(())
        } else {
            Err(MockConnectionError::NotConnected)
        }
    }

    /// Unsubscribes from a stream; refused when not connected.
    pub fn unsubscribe(&self, symbol: &str, stream_type: &str) -> (r: Result<(), MockConnectionError>)
        ensures
            r == (if self.connected_spec() {
                Ok::<(), MockConnectionError>(())
            } else {
                Err(MockConnectionError::NotConnected)
            }),
    {
        self.subscribe(symbol, stream_type)
    }

    /// Subscribes to the depth stream.
    pub fn subscribe_depth(&self, symbol: &str, update_speed_ms: Option<u16>) -> (r: Result<(), MockConnectionError>)
        ensures
            r == (if self.connected_spec() {
                Ok::<(), MockConnectionError>(())
            } else {
                Err(MockConnectionError::NotConnected)
            }),
    {
        self.subscribe(symbol, "depth")
    }

    /// Subscribes to the trade stream.
    pub fn subscribe_trade(&self, symbol: &str) -> (r: Result<(), MockConnectionError>)
        ensures
            r == (if self.connected_spec() {
                Ok::<(), MockConnectionError>(())
            } else {
                Err(MockConnectionError::NotConnected)
            }),
    {
        self.subscribe(symbol, "trade")
    }

    /// Disconnects and connects again; refused when not connected.
    pub fn reconnect(&mut self) -> (r: Result<(), MockConnectionError>)
        ensures
            !old(self).connected_spec() ==> r == Err::<(), MockConnectionError>(MockConnectionError::NotConnected)
                && !final(self).connected_spec(),
            old(self).connected_spec() ==> r is Ok && final(self).connected_spec(),
            final(self).url_spec() == old(self).url_spec(),
    {
        match self.disconnect() {
            Err(e) => Err(e),
            Ok(()) => self.connect(),
        }
    }

    /// Whether playback may start: only on a connection.
    pub fn start_listening(&self) -> (r: Result<(), MockConnectionError>)
        ensures
            r == (if self.connected_spec() {
                Ok::<(), MockConnectionError>(())
            } else {
                Err(MockConnectionError::NotConnected)
            }),
    {
        if self.connected {
            Ok(())
        } else {
            Err(MockConnectionError::NotConnected)
        }
    }
}

/// The stream name and payload of the `count`-th played-back message: a
/// depth update (ids `count` to `count + 1`, one bid at 50000.0 and one ask
/// at 50100.0) for even counts, a trade at 50050.0 of 0.5 otherwise.
pub open spec fn mock_message_spec(count: u64, symbol: Seq<char>, stream: Seq<char>, msg: FeedMessage) -> bool {
    if count % 2 == 0 {
        &&& stream == unicode_lower(symbol) + "@depth"@
        &&& msg matches FeedMessage::Depth(u) && u.event_type@ == "depthUpdate"@ && u.event_time == count
            && u.symbol@ == symbol && u.first_update_id == count && u.final_update_id == count + 1
            && u.bids@.len() == 1 && u.bids@[0].0@ == "50000.0"@ && u.bids@[0].1@ == "1.0"@
            && u.asks@.len() == 1 && u.asks@[0].0@ == "50100.0"@ && u.asks@[0].1@ == "1.0"@
    } else {
        &&& stream == unicode_lower(symbol) + "@trade"@
        &&& msg matches FeedMessage::Trade(t) && t.event_type@ == "trade"@ && t.event_time == count
            && t.symbol@ == symbol && t.trade_id == count && t.price@ == "50050.0"@ && t.quantity@ == "0.5"@
            && t.trade_time == count && t.is_buyer_maker == (count % 3 == 0)
    }
}

/// The `count`-th played-back message (see `mock_message_spec`).
pub fn mock_message(count: u64, symbol: &str) -> (r: (String, FeedMessage))
    requires
        count < u64::MAX,
    ensures
        mock_message_spec(count, symbol@, r.0@, r.1),
{
    let mut stream = to_lowercase(symbol);
    if count % 2 == 0 {
        stream.append("@depth");
        let mut bids: Vec<(String, String)> = Vec::new();
        bids.push((String::from_str("50000.0"), String::from_str("1.0")));
        let mut asks: Vec<(String, String)> = Vec::new();
        asks.push((String::from_str("50100.0"), String::from_str("1.0")));
        let u = OrderBookUpdate {
            event_type: String::from_str("depthUpdate"),
            event_time: count,
            symbol: String::from_str(symbol),
            first_update_id: count,
            final_update_id: count + 1,
            bids,
            asks,
        };
        (stream, FeedMessage::Depth(u))
    } else {
        stream.append("@trade");
        let t = TradeMessage {
            event_type: String::from_str("trade"),
            event_time: count,
            symbol: String::from_str(symbol),
            trade_id: count,
            price: String::from_str("50050.0"),
            quantity: String::from_str("0.5"),
            trade_time: count,
            is_buyer_maker: count % 3 == 0,
        };
        (stream, FeedMessage::Trade(t))
    }
}

} // verus!
