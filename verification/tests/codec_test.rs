use bybit::codec::{decode, encode_auth, encode_ping, encode_subscribe, DecodeError};
use bybit::json::{parse_json, to_i64, to_u64, JsonValue};
use bybit::model::{Tickers, WebsocketEvents};

#[test]
fn test_decode_orderbook() {
    let frame = br#"{"topic":"orderbook.1.ETHUSDT","type":"snapshot","ts":1672304484978,"data":{"s":"ETHUSDT","b":[["16493.50","0.006"],["16493.00","0.100"]],"a":[["16611.00","0.029"],["16612.00","0.213"]],"u":18521288,"seq":7961638724}}"#;
    let ev = decode(frame).expect("well-formed orderbook frame");
    match ev {
        WebsocketEvents::OrderBookEvent(u) => {
            assert_eq!(u.topic, b"orderbook.1.ETHUSDT".to_vec());
            assert_eq!(u.event_type, b"snapshot".to_vec());
            assert_eq!(u.ts, 1672304484978);
            assert_eq!(u.data.symbol, b"ETHUSDT".to_vec());
            assert_eq!(u.data.update_id, 18521288);
            assert_eq!(u.data.sequence, 7961638724);
            assert_eq!(u.data.bids[0].price, b"16493.50".to_vec());
            assert_eq!(u.data.bids[0].qty, b"0.006".to_vec());
            assert_eq!(u.data.asks[0].price, b"16611.00".to_vec());
            assert_eq!(u.data.asks[0].qty, b"0.029".to_vec());
            assert_eq!(u.data.bids.len(), 2);
            assert_eq!(u.data.asks.len(), 2);
        }
        other => panic!("expected an orderbook event, got {:?}", other),
    }
}

#[test]
fn test_decode_unknown_topic_is_not_fatal() {
    let frame = br#"{"topic":"greeks.ETH","ts":1,"data":{"whatever":true}}"#;
    let ev = decode(frame).expect("unknown topics are not errors");
    assert_eq!(ev, WebsocketEvents::UnknownEvent(b"greeks.ETH".to_vec()));
    let next = br#"{"topic":"publicTrade.ADAUSDT","ts":5,"data":[{"T":4,"s":"ADAUSDT","S":"Buy","v":"1.0","p":"0.45"}]}"#;
    assert!(decode(next).is_ok());
}

#[test]
fn test_decode_trade() {
    let frame = br#"{"topic":"publicTrade.BTCUSDT","type":"snapshot","ts":1672304486868,"data":[{"T":1672304486865,"s":"BTCUSDT","S":"Buy","v":"0.001","p":"16578.50"}]}"#;
    match decode(frame).unwrap() {
        WebsocketEvents::TradeEvent(u) => {
            assert_eq!(u.topic, b"publicTrade.BTCUSDT".to_vec());
            assert_eq!(u.ts, 1672304486868);
            assert_eq!(u.data.len(), 1);
            assert_eq!(u.data[0].timestamp, 1672304486865);
            assert_eq!(u.data[0].symbol, b"BTCUSDT".to_vec());
            assert_eq!(u.data[0].side, b"Buy".to_vec());
            assert_eq!(u.data[0].volume, b"0.001".to_vec());
            assert_eq!(u.data[0].price, b"16578.50".to_vec());
        }
        other => panic!("expected a trade event, got {:?}", other),
    }
}

#[test]
fn test_decode_ticker_spot() {
    let frame = br#"{"topic":"tickers.ADAUSDT","ts":1673853746003,"data":{"symbol":"ADAUSDT","lastPrice":"0.3467","volume24h":"4780000"}}"#;
    match decode(frame).unwrap() {
        WebsocketEvents::TickerEvent(u) => match u.data {
            Tickers::Spot(t) => {
                assert_eq!(t.symbol, b"ADAUSDT".to_vec());
                assert_eq!(t.last_price, b"0.3467".to_vec());
                assert_eq!(t.volume_24h, b"4780000".to_vec());
            }
            Tickers::Linear(t) => panic!("expected spot shape, got {:?}", t),
        },
        other => panic!("expected a ticker event, got {:?}", other),
    }
}

#[test]
fn test_decode_ticker_linear() {
    let frame = br#"{"topic":"tickers.BTCUSDT","ts":1673272861686,"data":{"symbol":"BTCUSDT","lastPrice":"17216.00","markPrice":"17217.33","tickDirection":"PlusTick"}}"#;
    match decode(frame).unwrap() {
        WebsocketEvents::TickerEvent(u) => match u.data {
            Tickers::Linear(t) => {
                assert_eq!(t.symbol, b"BTCUSDT".to_vec());
                assert_eq!(t.mark_price, b"17217.33".to_vec());
                assert_eq!(t.tick_direction, b"PlusTick".to_vec());
            }
            Tickers::Spot(t) => panic!("expected linear shape, got {:?}", t),
        },
        other => panic!("expected a ticker event, got {:?}", other),
    }
}

#[test]
fn test_decode_kline() {
    let frame = br#"{"topic":"kline.5.BTCUSDT","ts":1672324988882,"data":[{"start":1672324800000,"end":1672325099999,"interval":"5","open":"16649.5","close":"16677","high":"16677","low":"16608","volume":"2.081","confirm":false,"timestamp":1672324988882}]}"#;
    match decode(frame).unwrap() {
        WebsocketEvents::KlineEvent(u) => {
            assert_eq!(u.data.len(), 1);
            assert_eq!(u.data[0].start, 1672324800000);
            assert_eq!(u.data[0].interval, b"5".to_vec());
            assert_eq!(u.data[0].close, b"16677".to_vec());
            assert!(!u.data[0].confirm);
        }
        other => panic!("expected a kline event, got {:?}", other),
    }
}

#[test]
fn test_decode_liquidation() {
    let frame = br#"{"topic":"liquidation.GALAUSDT","ts":1673251091822,"data":{"updatedTime":1673251091822,"symbol":"GALAUSDT","side":"Buy","size":"5620","price":"0.03408"}}"#;
    match decode(frame).unwrap() {
        WebsocketEvents::LiquidationEvent(u) => {
            assert_eq!(u.data.symbol, b"GALAUSDT".to_vec());
            assert_eq!(u.data.size, b"5620".to_vec());
        }
        other => panic!("expected a liquidation event, got {:?}", other),
    }
}

#[test]
fn test_decode_wallet() {
    let frame = br#"{"topic":"wallet","creationTime":1700034722104,"data":[{"accountType":"UNIFIED","totalEquity":"3662.8"}]}"#;
    match decode(frame).unwrap() {
        WebsocketEvents::WalletEvent(u) => {
            assert_eq!(u.creation_time, 1700034722104);
            assert_eq!(u.data[0].account_type, b"UNIFIED".to_vec());
            assert_eq!(u.data[0].total_equity, b"3662.8".to_vec());
        }
        other => panic!("expected a wallet event, got {:?}", other),
    }
}

#[test]
fn test_decode_pong() {
    let frame = br#"{"success":true,"ret_msg":"pong","conn_id":"abc","op":"ping"}"#;
    match decode(frame).unwrap() {
        WebsocketEvents::PongEvent(p) => {
            assert_eq!(p.op, b"ping".to_vec());
            assert!(p.success);
        }
        other => panic!("expected an acknowledgement, got {:?}", other),
    }
}

#[test]
fn test_decode_not_json() {
    assert_eq!(decode(b"not json at all"), Err(DecodeError::NotJson));
}

#[test]
fn test_decode_wrong_shape() {
    let frame = br#"{"topic":"orderbook.1.ETHUSDT","ts":1,"data":{"s":"ETHUSDT"}}"#;
    assert_eq!(decode(frame), Err(DecodeError::WrongShape));
    let no_topic_no_op = br#"{"data":[1,2,3]}"#;
    assert_eq!(decode(no_topic_no_op), Err(DecodeError::WrongShape));
    let non_object = br#"[1,2,3]"#;
    assert_eq!(decode(non_object), Err(DecodeError::WrongShape));
}

#[test]
fn test_encode_subscribe() {
    let topics = vec![b"orderbook.1.ETHUSDT".to_vec(), b"publicTrade.ADAUSDT".to_vec()];
    let frame = encode_subscribe(&topics);
    assert_eq!(
        frame,
        br#"{"op":"subscribe","args":["orderbook.1.ETHUSDT","publicTrade.ADAUSDT"]}"#.to_vec()
    );
}

#[test]
fn test_encode_ping() {
    assert_eq!(encode_ping(), br#"{"op":"ping"}"#.to_vec());
}

#[test]
fn test_encode_auth() {
    let frame = encode_auth(b"key123", 1700000000000, b"deadbeef");
    assert_eq!(
        frame,
        br#"{"op":"auth","args":["key123",1700000000000,"deadbeef"]}"#.to_vec()
    );
}

#[test]
fn test_parse_json_values() {
    let v = parse_json(br#" {"a": [1, -2, "x\n", true, null], "b": {"c": 42}} "#).unwrap();
    let a = v.get(b"a").unwrap();
    match a {
        JsonValue::Arr(items) => {
            assert_eq!(items.len(), 5);
            assert_eq!(to_u64(&items[0]), Some(1));
            assert_eq!(to_i64(&items[1]), Some(-2));
            match &items[2] {
                JsonValue::Str(s) => assert_eq!(s, &b"x\n".to_vec()),
                other => panic!("expected a string node, got {:?}", other),
            }
        }
        other => panic!("expected an array node, got {:?}", other),
    }
    let b = v.get(b"b").unwrap();
    assert_eq!(to_u64(b.get(b"c").unwrap()), Some(42));
    assert!(parse_json(b"{\"unterminated\": ").is_none());
    assert!(parse_json(b"{} trailing").is_none());
}

#[test]
fn test_number_interpretation() {
    let v = parse_json(b"[18446744073709551615, 18446744073709551616, -9223372036854775808, -9223372036854775809, 1.5]").unwrap();
    match v {
        JsonValue::Arr(items) => {
            assert_eq!(to_u64(&items[0]), Some(u64::MAX));
            assert_eq!(to_u64(&items[1]), None);
            assert_eq!(to_i64(&items[2]), Some(i64::MIN));
            assert_eq!(to_i64(&items[3]), None);
            assert_eq!(to_u64(&items[4]), None);
            assert_eq!(to_i64(&items[0]), None);
        }
        other => panic!("expected an array node, got {:?}", other),
    }
}

#[test]
fn test_deeply_nested_json() {
    let mut payload = Vec::new();
    for _ in 0..60 {
        payload.push(b'[');
    }
    payload.push(b'1');
    for _ in 0..60 {
        payload.push(b']');
    }
    let mut v = parse_json(&payload).expect("deep nesting parses");
    for _ in 0..60 {
        match v {
            JsonValue::Arr(mut items) => {
                assert_eq!(items.len(), 1);
                v = items.pop().unwrap();
            }
            other => panic!("expected an array node, got {:?}", other),
        }
    }
    assert_eq!(to_u64(&v), Some(1));
}

#[test]
fn test_duplicate_keys_first_wins() {
    let v = parse_json(br#"{"k": 1, "k": 2}"#).unwrap();
    assert_eq!(to_u64(v.get(b"k").unwrap()), Some(1));
}

#[test]
fn test_string_escapes_round() {
    let v = parse_json(br#"{"s": "a\"b\\c\t"}"#).unwrap();
    match v.get(b"s").unwrap() {
        JsonValue::Str(s) => assert_eq!(s, &b"a\"b\\c\t".to_vec()),
        other => panic!("expected a string node, got {:?}", other),
    }
    // Unicode escapes are not supported by this codec: a strict failure.
    assert!(parse_json(br#"{"s": "\u0041"}"#).is_none());
}
