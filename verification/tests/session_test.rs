use bybit::model::Category;
use bybit::session::{ConnectionState, SessionAction, SessionEvent, StreamSession};
use bybit::stream::Stream;

fn fresh_session() -> StreamSession {
    StreamSession::new(false, 500, 30000)
}

#[test]
fn test_session_reaches_live() {
    let mut s = fresh_session();
    assert_eq!(s.state, ConnectionState::Disconnected);
    assert_eq!(s.handle(SessionEvent::Started), SessionAction::StartConnect);
    assert_eq!(s.state, ConnectionState::Connecting);
    assert_eq!(s.handle(SessionEvent::ConnectSucceeded), SessionAction::SendSubscribe);
    assert_eq!(s.state, ConnectionState::Subscribing);
    assert_eq!(s.handle(SessionEvent::SubscribeAcked), SessionAction::Idle);
    assert_eq!(s.state, ConnectionState::Live);
}

#[test]
fn test_private_session_authenticates() {
    let mut s = StreamSession::new(true, 500, 30000);
    s.handle(SessionEvent::Started);
    assert_eq!(s.handle(SessionEvent::ConnectSucceeded), SessionAction::SendAuth);
    assert_eq!(s.state, ConnectionState::Authenticating);
    assert_eq!(s.handle(SessionEvent::AuthSucceeded), SessionAction::SendSubscribe);
    assert_eq!(s.state, ConnectionState::Subscribing);
    let mut failing = StreamSession::new(true, 500, 30000);
    failing.handle(SessionEvent::Started);
    failing.handle(SessionEvent::ConnectSucceeded);
    assert_eq!(failing.handle(SessionEvent::AuthFailed), SessionAction::WaitBackoff(500));
    assert_eq!(failing.state, ConnectionState::Reconnecting);
}

#[test]
fn test_staleness_reconnects_exactly_once() {
    let mut s = fresh_session();
    s.handle(SessionEvent::Started);
    s.handle(SessionEvent::ConnectSucceeded);
    s.handle(SessionEvent::SubscribeAcked);
    assert_eq!(s.state, ConnectionState::Live);
    // The first staleness timeout forces one reconnect with one backoff wait.
    assert_eq!(s.handle(SessionEvent::StalenessTimeout), SessionAction::WaitBackoff(500));
    assert_eq!(s.state, ConnectionState::Reconnecting);
    // A second timeout while already reconnecting does nothing: no tight loop.
    assert_eq!(s.handle(SessionEvent::StalenessTimeout), SessionAction::Idle);
    assert_eq!(s.state, ConnectionState::Reconnecting);
}

#[test]
fn test_ping_without_reply_forces_reconnect() {
    let mut s = fresh_session();
    s.handle(SessionEvent::Started);
    s.handle(SessionEvent::ConnectSucceeded);
    s.handle(SessionEvent::SubscribeAcked);
    assert_eq!(s.ping_outcome(false, false), SessionAction::Idle);
    assert_eq!(s.state, ConnectionState::Live);
    assert_eq!(s.ping_outcome(true, true), SessionAction::Idle);
    assert_eq!(s.state, ConnectionState::Live);
    assert_eq!(s.ping_outcome(true, false), SessionAction::WaitBackoff(500));
    assert_eq!(s.state, ConnectionState::Reconnecting);
}

#[test]
fn test_backoff_delays_non_decreasing() {
    let mut s = fresh_session();
    s.handle(SessionEvent::Started);
    let mut waits: Vec<u64> = Vec::new();
    for _ in 0..3 {
        match s.handle(SessionEvent::ConnectFailed) {
            SessionAction::WaitBackoff(w) => waits.push(w),
            other => panic!("expected a backoff wait, got {:?}", other),
        }
        assert_eq!(s.state, ConnectionState::Reconnecting);
        assert_eq!(s.handle(SessionEvent::BackoffElapsed), SessionAction::StartConnect);
        assert_eq!(s.state, ConnectionState::Connecting);
    }
    assert!(waits.len() >= 3);
    assert!(waits[0] <= waits[1] && waits[1] <= waits[2]);
    // Once a connect succeeds the session still reaches Live.
    s.handle(SessionEvent::ConnectSucceeded);
    s.handle(SessionEvent::SubscribeAcked);
    assert_eq!(s.state, ConnectionState::Live);
    assert_eq!(s.delay_ms, 500);
}

#[test]
fn test_transport_error_while_subscribing() {
    let mut s = fresh_session();
    s.handle(SessionEvent::Started);
    s.handle(SessionEvent::ConnectSucceeded);
    assert_eq!(s.state, ConnectionState::Subscribing);
    assert_eq!(s.handle(SessionEvent::TransportError), SessionAction::WaitBackoff(500));
    assert_eq!(s.state, ConnectionState::Reconnecting);
}

#[test]
fn test_backoff_is_capped() {
    let mut s = StreamSession::new(false, 500, 2000);
    s.handle(SessionEvent::Started);
    for _ in 0..8 {
        s.handle(SessionEvent::ConnectFailed);
        s.handle(SessionEvent::BackoffElapsed);
    }
    match s.handle(SessionEvent::ConnectFailed) {
        SessionAction::WaitBackoff(w) => assert_eq!(w, 2000),
        other => panic!("expected a backoff wait, got {:?}", other),
    }
}

#[test]
fn test_resubscribe_frame_rebuilt_from_registry() {
    // Topics requested before and during a session survive a disconnect: the
    // resubscribe frame for the new connection names every one of them.
    let ws = Stream::new(None, None);
    let mut s = ws.ws_trades(vec!["BTCUSDT".to_string(), "ETHUSDT".to_string()], Category::Linear);
    s.handle(SessionEvent::Started);
    s.handle(SessionEvent::ConnectSucceeded);
    s.handle(SessionEvent::SubscribeAcked);
    // A topic requested while live is recorded too.
    s.registry.add(b"publicTrade.ADAUSDT".to_vec());
    // Simulated disconnect and reconnect.
    s.handle(SessionEvent::TransportError);
    s.handle(SessionEvent::BackoffElapsed);
    s.handle(SessionEvent::ConnectSucceeded);
    let frame = String::from_utf8(s.resubscribe_frame()).unwrap();
    assert!(frame.contains("\"publicTrade.BTCUSDT\""));
    assert!(frame.contains("\"publicTrade.ETHUSDT\""));
    assert!(frame.contains("\"publicTrade.ADAUSDT\""));
    assert_eq!(
        frame,
        r#"{"op":"subscribe","args":["publicTrade.BTCUSDT","publicTrade.ETHUSDT","publicTrade.ADAUSDT"]}"#
    );
}
