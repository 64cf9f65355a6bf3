use xtrade::feed::FeedMessage;
use xtrade::mock::{mock_message, MockConnectionError, MockWebSocket};
use xtrade::stream::ConnectionStatus;

#[test]
fn test_mock_websocket_creation() {
    let ws = MockWebSocket::new("ws://localhost:8080/mock".to_string());
    assert_eq!(ws.status(), ConnectionStatus::Disconnected);
    assert!(!ws.is_connected());
    assert_eq!(ws.url(), "ws://localhost:8080/mock");
}

#[test]
fn test_mock_websocket_connect_disconnect() {
    let mut ws = MockWebSocket::new("ws://localhost:8080/mock".to_string());

    ws.connect().unwrap();
    assert_eq!(ws.status(), ConnectionStatus::Connected);
    assert!(ws.is_connected());

    ws.disconnect().unwrap();
    assert_eq!(ws.status(), ConnectionStatus::Disconnected);
    assert!(!ws.is_connected());
}

#[test]
fn test_mock_websocket_subscribe() {
    let mut ws = MockWebSocket::new("ws://localhost:8080/mock".to_string());

    ws.connect().unwrap();

    ws.subscribe("BTCUSDT", "depth").unwrap();
    ws.subscribe_depth("BTCUSDT", Some(100)).unwrap();
    ws.subscribe_trade("BTCUSDT").unwrap();

    ws.unsubscribe("BTCUSDT", "depth").unwrap();
}

#[test]
fn test_mock_websocket_reconnect() {
    let mut ws = MockWebSocket::new("ws://localhost:8080/mock".to_string());

    ws.connect().unwrap();
    assert!(ws.is_connected());

    ws.reconnect().unwrap();
    assert!(ws.is_connected());
}

#[test]
fn test_mock_websocket_message_generation() {
    let mut ws = MockWebSocket::new("ws://localhost:8080/mock".to_string());

    ws.connect().unwrap();
    ws.start_listening().unwrap();

    for count in 1..=3u64 {
        let (stream, _message) = mock_message(count, "BTCUSDT");
        assert!(stream.contains("btcusdt"));
    }
}

#[test]
fn mock_refuses_requests_in_the_wrong_state() {
    let mut ws = MockWebSocket::new("ws://x".to_string());
    assert_eq!(ws.disconnect(), Err(MockConnectionError::NotConnected));
    assert_eq!(ws.subscribe("BTCUSDT", "depth"), Err(MockConnectionError::NotConnected));
    assert_eq!(ws.start_listening(), Err(MockConnectionError::NotConnected));
    ws.connect().unwrap();
    assert_eq!(ws.connect(), Err(MockConnectionError::AlreadyConnected));
    assert_eq!(MockConnectionError::AlreadyConnected.message(), "Already connected");
}

#[test]
fn mock_messages_alternate_between_depth_and_trade() {
    match mock_message(2, "BTCUSDT") {
        (stream, FeedMessage::Depth(u)) => {
            assert_eq!(stream, "btcusdt@depth");
            assert_eq!(u.first_update_id, 2);
            assert_eq!(u.final_update_id, 3);
            assert_eq!(u.bids, vec![("50000.0".to_string(), "1.0".to_string())]);
        }
        other => panic!("unexpected {:?}", other),
    }
    match mock_message(3, "BTCUSDT") {
        (stream, FeedMessage::Trade(t)) => {
            assert_eq!(stream, "btcusdt@trade");
            assert_eq!(t.price, "50050.0");
            assert!(t.is_buyer_maker);
        }
        other => panic!("unexpected {:?}", other),
    }
}
