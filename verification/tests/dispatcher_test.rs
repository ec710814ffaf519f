use std::sync::mpsc;

use bybit::codec::DecodeError;
use bybit::dispatcher::Dispatcher;
use bybit::model::{Tickers, WebsocketEvents};

#[test]
fn test_spot_tickers_routed_in_order() {
    // Two spot-shape frames for two requested symbols come out as exactly two
    // spot ticker events, in feed order, with no linear event.
    let mut d = Dispatcher::new();
    let (tx, rx) = mpsc::channel();
    d.add_consumer(
        vec![b"tickers.ADAUSDT".to_vec(), b"tickers.MATICUSDT".to_vec()],
        tx,
    );
    let f1 = br#"{"topic":"tickers.ADAUSDT","ts":1,"data":{"symbol":"ADAUSDT","lastPrice":"0.34","volume24h":"1000"}}"#;
    let f2 = br#"{"topic":"tickers.MATICUSDT","ts":2,"data":{"symbol":"MATICUSDT","lastPrice":"0.99","volume24h":"2000"}}"#;
    assert_eq!(d.dispatch_frame(f1), Ok(false));
    assert_eq!(d.dispatch_frame(f2), Ok(false));
    drop(d);
    let received: Vec<WebsocketEvents> = rx.iter().collect();
    assert_eq!(received.len(), 2);
    let symbols: Vec<Vec<u8>> = received
        .iter()
        .map(|ev| match ev {
            WebsocketEvents::TickerEvent(u) => match &u.data {
                Tickers::Spot(t) => t.symbol.clone(),
                Tickers::Linear(t) => panic!("unexpected linear ticker {:?}", t),
            },
            other => panic!("unexpected event {:?}", other),
        })
        .collect();
    assert_eq!(symbols, vec![b"ADAUSDT".to_vec(), b"MATICUSDT".to_vec()]);
}

#[test]
fn test_decode_error_does_not_stop_delivery() {
    let mut d = Dispatcher::new();
    let (tx, rx) = mpsc::channel();
    d.add_consumer(vec![b"publicTrade.ADAUSDT".to_vec()], tx);
    assert_eq!(d.dispatch_frame(b"garbage"), Err(DecodeError::NotJson));
    let bad_shape = br#"{"topic":"publicTrade.ADAUSDT","ts":1,"data":[{"T":1}]}"#;
    assert_eq!(d.dispatch_frame(bad_shape), Err(DecodeError::WrongShape));
    // The next valid payload is still delivered.
    let good = br#"{"topic":"publicTrade.ADAUSDT","ts":1,"data":[{"T":1,"s":"ADAUSDT","S":"Sell","v":"2","p":"0.4"}]}"#;
    assert_eq!(d.dispatch_frame(good), Ok(false));
    drop(d);
    assert_eq!(rx.iter().count(), 1);
}

#[test]
fn test_dropping_one_consumer_keeps_connection() {
    // Dropping one consumer's channel while another topic still has a live
    // consumer must not close the connection; dropping the last one does.
    let mut d = Dispatcher::new();
    let (tx1, rx1) = mpsc::channel();
    let (tx2, rx2) = mpsc::channel();
    d.add_consumer(vec![b"tickers.ADAUSDT".to_vec()], tx1);
    d.add_consumer(vec![b"tickers.MATICUSDT".to_vec()], tx2);
    drop(rx1);
    let f1 = br#"{"topic":"tickers.ADAUSDT","ts":1,"data":{"symbol":"ADAUSDT","lastPrice":"0.34","volume24h":"1"}}"#;
    let f2 = br#"{"topic":"tickers.MATICUSDT","ts":2,"data":{"symbol":"MATICUSDT","lastPrice":"0.99","volume24h":"2"}}"#;
    // The first consumer is found closed, but the second is still served.
    assert_eq!(d.dispatch_frame(f1), Ok(false));
    assert_eq!(d.dispatch_frame(f2), Ok(false));
    assert_eq!(rx2.try_iter().count(), 1);
    // When the last consumer goes away, the dispatcher asks to close.
    drop(rx2);
    assert_eq!(d.dispatch_frame(f2), Ok(true));
}

#[test]
fn test_no_delivery_for_unrequested_topic() {
    let mut d = Dispatcher::new();
    let (tx, rx) = mpsc::channel();
    d.add_consumer(vec![b"tickers.ADAUSDT".to_vec()], tx);
    let other = br#"{"topic":"tickers.BTCUSDT","ts":1,"data":{"symbol":"BTCUSDT","lastPrice":"1","volume24h":"1"}}"#;
    assert_eq!(d.dispatch_frame(other), Ok(false));
    drop(d);
    assert_eq!(rx.iter().count(), 0);
}

#[test]
fn test_acknowledgements_are_not_routed() {
    let mut d = Dispatcher::new();
    let (tx, rx) = mpsc::channel();
    d.add_consumer(vec![b"wallet".to_vec()], tx);
    let pong = br#"{"op":"pong","success":true}"#;
    assert_eq!(d.dispatch_frame(pong), Ok(false));
    drop(d);
    assert_eq!(rx.iter().count(), 0);
}
