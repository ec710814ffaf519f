use bybit::model::{Category, Subscription};
use bybit::session::ConnectionState;
use bybit::stream::{Stream, StreamError};

fn topics_of(session: &bybit::session::StreamSession) -> Vec<String> {
    session
        .registry
        .snapshot()
        .into_iter()
        .map(|t| String::from_utf8(t).unwrap())
        .collect()
}

#[test]
fn test_ws_subscribe_records_raw_args() {
    let ws = Stream::new(None, None);
    let request = Subscription {
        op: "subscribe".to_string(),
        args: vec!["publicTrade.ADAUSDT".to_string()],
    };
    let s = ws.ws_subscribe(request, Category::Linear);
    assert_eq!(topics_of(&s), vec!["publicTrade.ADAUSDT"]);
    assert_eq!(s.state, ConnectionState::Disconnected);
}

#[test]
fn test_default_orderbook() {
    let ws = Stream::new(None, None);
    let s = ws.ws_orderbook(vec![(1, "POLUSDT".to_string())], Category::Linear);
    assert_eq!(topics_of(&s), vec!["orderbook.1.POLUSDT"]);
}

#[test]
fn test_default_trades() {
    let ws = Stream::new(None, None);
    let symbols = vec![
        "BTCUSDT".to_string(),
        "MATICUSDT".to_string(),
        "ETHUSDT".to_string(),
        "ADAUSDT".to_string(),
    ];
    let s = ws.ws_trades(symbols, Category::Linear);
    assert_eq!(
        topics_of(&s),
        vec![
            "publicTrade.BTCUSDT",
            "publicTrade.MATICUSDT",
            "publicTrade.ETHUSDT",
            "publicTrade.ADAUSDT",
        ]
    );
}

#[test]
fn test_default_tickers() {
    let ws = Stream::new(None, None);
    let s = ws.ws_tickers(
        vec!["ADAUSDT".to_string(), "MATICUSDT".to_string()],
        Category::Spot,
    );
    assert_eq!(topics_of(&s), vec!["tickers.ADAUSDT", "tickers.MATICUSDT"]);
}

#[test]
fn test_default_klines() {
    let ws = Stream::new(None, None);
    let s = ws.ws_klines(vec![("1".to_string(), "MATICUSDT".to_string())], Category::Linear);
    assert_eq!(topics_of(&s), vec!["kline.1.MATICUSDT"]);
}

#[test]
fn test_duplicate_topics_recorded_once() {
    let ws = Stream::new(None, None);
    let s = ws.ws_trades(
        vec!["BTCUSDT".to_string(), "BTCUSDT".to_string()],
        Category::Linear,
    );
    assert_eq!(topics_of(&s), vec!["publicTrade.BTCUSDT"]);
}

#[test]
fn test_auth() {
    // Without credentials a private stream is refused synchronously.
    let anon = Stream::new(None, None);
    assert!(matches!(anon.ws_wallet(), Err(StreamError::MissingCredentials)));
    assert!(anon.auth_frame(1, b"sig").is_none());
    let ws = Stream::new(Some("key123".to_string()), Some("testsecret".to_string()));
    let s = ws.ws_wallet().expect("credentials are present");
    assert!(s.private_stream);
    assert_eq!(topics_of(&s), vec!["wallet"]);
    let frame = ws.auth_frame(1700000000000, b"deadbeef").unwrap();
    assert_eq!(
        frame,
        br#"{"op":"auth","args":["key123",1700000000000,"deadbeef"]}"#.to_vec()
    );
}

#[test]
fn ping() {
    let ws = Stream::new(None, None);
    assert_eq!(ws.ws_ping(), br#"{"op":"ping"}"#.to_vec());
}

#[test]
fn test_registry_add_remove() {
    let mut reg = bybit::registry::SubscriptionRegistry::new();
    reg.add(b"tickers.ADAUSDT".to_vec());
    reg.add(b"tickers.ADAUSDT".to_vec());
    reg.add(b"wallet".to_vec());
    assert_eq!(reg.len(), 2);
    reg.remove(b"tickers.ADAUSDT");
    assert_eq!(reg.snapshot(), vec![b"wallet".to_vec()]);
    reg.remove(b"never-added");
    assert_eq!(reg.len(), 1);
}
