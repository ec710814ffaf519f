//! The event codec: decodes raw inbound frames into the closed set of typed
//! events, and encodes the outgoing control frames (subscribe, ping, auth).
//!
//! Decoding first parses the frame as JSON, then inspects the `topic` field's
//! channel prefix and dispatches to a strict per-variant parser. A payload that
//! parses structurally but carries an unrecognized topic becomes
//! `UnknownEvent`, never an error, which keeps the codec forward-compatible; a
//! payload that fails structural parsing for its claimed topic is a
//! `DecodeError` that the receive loop drops without terminating.

use vstd::prelude::*;
use vstd::string::StringSliceAdditionalSpecFns;

use crate::json::{
    is_dec_digits, dec_val, items_model, spec_obj_get, spec_parse_json, to_u64, JsonModel,
    JsonValue,
};
use crate::model::{
    EventModel, KlineData, KlineModel, KlineUpdate, KlineUpdateModel, LevelModel,
    LinearTickerData, LinearTickerModel, LiquidationData, LiquidationModel, LiquidationUpdate,
    LiquidationUpdateModel, OpResponse, OpResponseModel, OrderBookData, OrderBookDataModel,
    OrderBookLevel, OrderBookUpdate, OrderBookUpdateModel, SpotTickerData, SpotTickerModel,
    Tickers, TickersModel, TickerUpdate, TickerUpdateModel, TradeData, TradeModel, TradeUpdate,
    TradeUpdateModel, WalletAccountData, WalletAccountModel, WalletUpdate, WalletUpdateModel,
    WebsocketEvents, klines_model, levels_model, trades_model, wallet_accounts_model,
};

verus! {

/// Why a frame could not be decoded. Decode failures are dropped and logged by
/// the receive loop; they never terminate the stream.
#[derive(Clone, Copy, Debug, PartialEq, Eq, Structural)]
pub enum DecodeError {
    /// The frame is not a complete JSON document.
    NotJson,
    /// The frame is JSON, but does not have the shape its discriminant claims.
    WrongShape,
}

/// Index of the first occurrence of `b` in `s` at or after `i`, or `s.len()`.
pub open spec fn spec_find_byte(s: Seq<u8>, b: u8, i: int) -> int
    decreases s.len() - i,
{
    if !(0 <= i < s.len()) {
        s.len() as int
    } else if s[i] == b {
        i
    } else {
        spec_find_byte(s, b, i + 1)
    }
}

fn find_byte(s: &[u8], b: u8) -> (r: usize)
    ensures
        r as int == spec_find_byte(s@, b, 0),
        r <= s@.len(),
{
    let mut i: usize = 0;
    while i < s.len() && s[i] != b
        invariant
            i <= s@.len(),
            spec_find_byte(s@, b, 0) == spec_find_byte(s@, b, i as int),
        decreases s@.len() - i,
    {
        i = i + 1;
    }
    i
}

/// The string content of the member `key`, if present with a string value.
pub open spec fn spec_str_field(ps: Seq<(Seq<u8>, JsonModel)>, key: Seq<u8>) -> Option<Seq<u8>> {
    match spec_obj_get(ps, key) {
        Some(JsonModel::Str(content)) => Some(content),
        _ => None,
    }
}

/// The value of the member `key` read as a `u64`, if present as plain digits.
pub open spec fn spec_u64_field(ps: Seq<(Seq<u8>, JsonModel)>, key: Seq<u8>) -> Option<u64> {
    match spec_obj_get(ps, key) {
        Some(JsonModel::Num(tok)) => {
            if is_dec_digits(tok) && dec_val(tok) <= u64::MAX {
                Some(dec_val(tok) as u64)
            } else {
                None
            }
        },
        _ => None,
    }
}

/// The value of the member `key`, if present with a boolean value.
pub open spec fn spec_bool_field(ps: Seq<(Seq<u8>, JsonModel)>, key: Seq<u8>) -> Option<bool> {
    match spec_obj_get(ps, key) {
        Some(JsonModel::Bool(b)) => Some(b),
        _ => None,
    }
}

/// The members of the member `key`, if present with an object value.
pub open spec fn spec_obj_field(ps: Seq<(Seq<u8>, JsonModel)>, key: Seq<u8>) -> Option<
    Seq<(Seq<u8>, JsonModel)>,
> {
    match spec_obj_get(ps, key) {
        Some(JsonModel::Obj(d)) => Some(d),
        _ => None,
    }
}

/// The items of the member `key`, if present with an array value.
pub open spec fn spec_arr_field(ps: Seq<(Seq<u8>, JsonModel)>, key: Seq<u8>) -> Option<
    Seq<JsonModel>,
> {
    match spec_obj_get(ps, key) {
        Some(JsonModel::Arr(ms)) => Some(ms),
        _ => None,
    }
}

fn str_field(v: &JsonValue, key: &[u8]) -> (r: Option<Vec<u8>>)
    ensures
        (match v.model() {
            JsonModel::Obj(ps) => match (r, spec_str_field(ps, key@)) {
                (Some(c), Some(m)) => c@ == m,
                (None, None) => true,
                _ => false,
            },
            _ => r is None,
        }),
{
    match v.get(key) {
        Some(f) => match f.as_str_bytes() {
            Some(content) => Some(vstd::slice::slice_to_vec(content.as_slice())),
            None => None,
        },
        None => None,
    }
}

fn u64_field(v: &JsonValue, key: &[u8]) -> (r: Option<u64>)
    ensures
        (match v.model() {
            JsonModel::Obj(ps) => r == spec_u64_field(ps, key@),
            _ => r is None,
        }),
{
    match v.get(key) {
        Some(f) => to_u64(f),
        None => None,
    }
}

fn bool_field(v: &JsonValue, key: &[u8]) -> (r: Option<bool>)
    ensures
        (match v.model() {
            JsonModel::Obj(ps) => r == spec_bool_field(ps, key@),
            _ => r is None,
        }),
{
    match v.get(key) {
        Some(f) => f.as_bool(),
        None => None,
    }
}

fn obj_field<'a>(v: &'a JsonValue, key: &[u8]) -> (r: Option<&'a JsonValue>)
    ensures
        (match v.model() {
            JsonModel::Obj(ps) => match (r, spec_obj_field(ps, key@)) {
                (Some(f), Some(d)) => f.model() == JsonModel::Obj(d),
                (None, None) => true,
                _ => false,
            },
            _ => r is None,
        }),
{
    match v.get(key) {
        Some(f) => match f {
            JsonValue::Obj(_) => Some(f),
            _ => None,
        },
        None => None,
    }
}

fn arr_field<'a>(v: &'a JsonValue, key: &[u8]) -> (r: Option<&'a Vec<JsonValue>>)
    ensures
        (match v.model() {
            JsonModel::Obj(ps) => match (r, spec_arr_field(ps, key@)) {
                (Some(items), Some(ms)) => items_model(items@) == ms,
                (None, None) => true,
                _ => false,
            },
            _ => r is None,
        }),
{
    match v.get(key) {
        Some(f) => f.as_items(),
        None => None,
    }
}

/// One orderbook level: an array of exactly a price string and a quantity
/// string.
pub open spec fn spec_level(m: JsonModel) -> Option<LevelModel> {
    match m {
        JsonModel::Arr(items) => {
            if items.len() == 2 {
                match (items[0], items[1]) {
                    (JsonModel::Str(p), JsonModel::Str(q)) => Some(
                        LevelModel { price: p, qty: q },
                    ),
                    _ => None,
                }
            } else {
                None
            }
        },
        _ => None,
    }
}

pub open spec fn spec_levels_seq(ms: Seq<JsonModel>) -> Option<Seq<LevelModel>>
    decreases ms.len(),
{
    if ms.len() == 0 {
        Some(Seq::<LevelModel>::empty())
    } else {
        match spec_level(ms[0]) {
            None => None,
            Some(l) => match spec_levels_seq(ms.skip(1)) {
                None => None,
                Some(rest) => Some(seq![l] + rest),
            },
        }
    }
}

fn parse_level(v: &JsonValue) -> (r: Option<OrderBookLevel>)
    ensures
        (match (r, spec_level(v.model())) {
            (Some(l), Some(m)) => l.model() == m,
            (None, None) => true,
            _ => false,
        }),
{
    match v {
        JsonValue::Arr(pair) => {
            proof {
                assert(v.model() == JsonModel::Arr(items_model(pair@)));
            }
            if pair.len() == 2 {
                proof {
                    assert(items_model(pair@)[0] == pair@[0].model());
                    assert(items_model(pair@)[1] == pair@[1].model());
                }
                match (&pair[0], &pair[1]) {
                    (JsonValue::Str(p), JsonValue::Str(q)) => {
                        proof {
                            assert(pair@[0].model() == JsonModel::Str(p@));
                            assert(pair@[1].model() == JsonModel::Str(q@));
                        }
                        Some(
                            OrderBookLevel {
                                price: vstd::slice::slice_to_vec(p.as_slice()),
                                qty: vstd::slice::slice_to_vec(q.as_slice()),
                            },
                        )
                    },
                    _ => None,
                }
            } else {
                None
            }
        },
        _ => None,
    }
}

fn parse_levels(items: &Vec<JsonValue>) -> (r: Option<Vec<OrderBookLevel>>)
    ensures
        (match (r, spec_levels_seq(items_model(items@))) {
            (Some(ls), Some(ms)) => levels_model(ls@) == ms,
            (None, None) => true,
            _ => false,
        }),
{
    let ghost ms = items_model(items@);
    let mut acc: Vec<OrderBookLevel> = Vec::new();
    let mut i: usize = 0;
    proof {
        assert(ms.skip(0) =~= ms);
        assert(levels_model(acc@) =~= Seq::<LevelModel>::empty());
    }
    while i < items.len()
        invariant
            i <= items.len(),
            ms == items_model(items@),
            (match spec_levels_seq(ms.skip(i as int)) {
                Some(rest) => spec_levels_seq(ms) == Some(levels_model(acc@) + rest),
                None => spec_levels_seq(ms) is None,
            }),
        decreases items.len() - i,
    {
        proof {
            assert(ms.skip(i as int)[0] == ms[i as int]);
            assert(ms.skip(i as int).skip(1) =~= ms.skip(i + 1));
        }
        match parse_level(&items[i]) {
            Some(l) => {
                proof {
                    let lm = l.model();
                    if let Some(rest2) = spec_levels_seq(ms.skip(i + 1)) {
                        assert(levels_model(acc@.push(l)) + rest2 =~= levels_model(acc@) + (
                        seq![lm] + rest2));
                    }
                }
                acc.push(l);
            },
            None => {
                return None;
            },
        }
        i = i + 1;
    }
    proof {
        assert(ms.skip(i as int) =~= Seq::<JsonModel>::empty());
        assert(levels_model(acc@) + Seq::<LevelModel>::empty() =~= levels_model(acc@));
    }
    Some(acc)
}

/// One trade entry: an object with timestamp, symbol, side, volume, price.
pub open spec fn spec_trade(m: JsonModel) -> Option<TradeModel> {
    match m {
        JsonModel::Obj(d) => {
            match (
                spec_u64_field(d, "T".spec_bytes()),
                spec_str_field(d, "s".spec_bytes()),
                spec_str_field(d, "S".spec_bytes()),
                spec_str_field(d, "v".spec_bytes()),
                spec_str_field(d, "p".spec_bytes()),
            ) {
                (Some(t), Some(sym), Some(side), Some(vol), Some(price)) => Some(
                    TradeModel {
                        timestamp: t,
                        symbol: sym,
                        side: side,
                        volume: vol,
                        price: price,
                    },
                ),
                _ => None,
            }
        },
        _ => None,
    }
}

pub open spec fn spec_trades_seq(ms: Seq<JsonModel>) -> Option<Seq<TradeModel>>
    decreases ms.len(),
{
    if ms.len() == 0 {
        Some(Seq::<TradeModel>::empty())
    } else {
        match spec_trade(ms[0]) {
            None => None,
            Some(t) => match spec_trades_seq(ms.skip(1)) {
                None => None,
                Some(rest) => Some(seq![t] + rest),
            },
        }
    }
}

fn parse_trade(v: &JsonValue) -> (r: Option<TradeData>)
    ensures
        (match (r, spec_trade(v.model())) {
            (Some(t), Some(m)) => t.model() == m,
            (None, None) => true,
            _ => false,
        }),
{
    let t = u64_field(v, "T".as_bytes());
    let sym = str_field(v, "s".as_bytes());
    let side = str_field(v, "S".as_bytes());
    let vol = str_field(v, "v".as_bytes());
    let price = str_field(v, "p".as_bytes());
    match (t, sym, side, vol, price) {
        (Some(t), Some(sym), Some(side), Some(vol), Some(price)) => Some(
            TradeData { timestamp: t, symbol: sym, side: side, volume: vol, price: price },
        ),
        _ => None,
    }
}

fn parse_trades(items: &Vec<JsonValue>) -> (r: Option<Vec<TradeData>>)
    ensures
        (match (r, spec_trades_seq(items_model(items@))) {
            (Some(ts), Some(ms)) => trades_model(ts@) == ms,
            (None, None) => true,
            _ => false,
        }),
{
    let ghost ms = items_model(items@);
    let mut acc: Vec<TradeData> = Vec::new();
    let mut i: usize = 0;
    proof {
        assert(ms.skip(0) =~= ms);
        assert(trades_model(acc@) =~= Seq::<TradeModel>::empty());
    }
    while i < items.len()
        invariant
            i <= items.len(),
            ms == items_model(items@),
            (match spec_trades_seq(ms.skip(i as int)) {
                Some(rest) => spec_trades_seq(ms) == Some(trades_model(acc@) + rest),
                None => spec_trades_seq(ms) is None,
            }),
        decreases items.len() - i,
    {
        proof {
            assert(ms.skip(i as int)[0] == ms[i as int]);
            assert(ms.skip(i as int).skip(1) =~= ms.skip(i + 1));
        }
        match parse_trade(&items[i]) {
            Some(t) => {
                proof {
                    let tm = t.model();
                    if let Some(rest2) = spec_trades_seq(ms.skip(i + 1)) {
                        assert(trades_model(acc@.push(t)) + rest2 =~= trades_model(acc@) + (
                        seq![tm] + rest2));
                    }
                }
                acc.push(t);
            },
            None => {
                return None;
            },
        }
        i = i + 1;
    }
    proof {
        assert(ms.skip(i as int) =~= Seq::<JsonModel>::empty());
        assert(trades_model(acc@) + Seq::<TradeModel>::empty() =~= trades_model(acc@));
    }
    Some(acc)
}

/// One candlestick entry.
pub open spec fn spec_kline(m: JsonModel) -> Option<KlineModel> {
    match m {
        JsonModel::Obj(d) => {
            match (
                spec_u64_field(d, "start".spec_bytes()),
                spec_u64_field(d, "end".spec_bytes()),
                spec_str_field(d, "interval".spec_bytes()),
                spec_str_field(d, "open".spec_bytes()),
                spec_str_field(d, "close".spec_bytes()),
                spec_str_field(d, "high".spec_bytes()),
                spec_str_field(d, "low".spec_bytes()),
                spec_str_field(d, "volume".spec_bytes()),
                spec_bool_field(d, "confirm".spec_bytes()),
                spec_u64_field(d, "timestamp".spec_bytes()),
            ) {
                (
                    Some(start),
                    Some(end),
                    Some(interval),
                    Some(open),
                    Some(close),
                    Some(high),
                    Some(low),
                    Some(volume),
                    Some(confirm),
                    Some(timestamp),
                ) => Some(
                    KlineModel {
                        start,
                        end,
                        interval,
                        open,
                        close,
                        high,
                        low,
                        volume,
                        confirm,
                        timestamp,
                    },
                ),
                _ => None,
            }
        },
        _ => None,
    }
}

pub open spec fn spec_klines_seq(ms: Seq<JsonModel>) -> Option<Seq<KlineModel>>
    decreases ms.len(),
{
    if ms.len() == 0 {
        Some(Seq::<KlineModel>::empty())
    } else {
        match spec_kline(ms[0]) {
            None => None,
            Some(k) => match spec_klines_seq(ms.skip(1)) {
                None => None,
                Some(rest) => Some(seq![k] + rest),
            },
        }
    }
}

fn parse_kline(v: &JsonValue) -> (r: Option<KlineData>)
    ensures
        (match (r, spec_kline(v.model())) {
            (Some(k), Some(m)) => k.model() == m,
            (None, None) => true,
            _ => false,
        }),
{
    let start = u64_field(v, "start".as_bytes());
    let end = u64_field(v, "end".as_bytes());
    let interval = str_field(v, "interval".as_bytes());
    let open = str_field(v, "open".as_bytes());
    let close = str_field(v, "close".as_bytes());
    let high = str_field(v, "high".as_bytes());
    let low = str_field(v, "low".as_bytes());
    let volume = str_field(v, "volume".as_bytes());
    let confirm = bool_field(v, "confirm".as_bytes());
    let timestamp = u64_field(v, "timestamp".as_bytes());
    match (start, end, interval, open, close, high, low, volume, confirm, timestamp) {
        (
            Some(start),
            Some(end),
            Some(interval),
            Some(open),
            Some(close),
            Some(high),
            Some(low),
            Some(volume),
            Some(confirm),
            Some(timestamp),
        ) => Some(
            KlineData {
                start,
                end,
                interval,
                open,
                close,
                high,
                low,
                volume,
                confirm,
                timestamp,
            },
        ),
        _ => None,
    }
}

fn parse_klines(items: &Vec<JsonValue>) -> (r: Option<Vec<KlineData>>)
    ensures
        (match (r, spec_klines_seq(items_model(items@))) {
            (Some(ks), Some(ms)) => klines_model(ks@) == ms,
            (None, None) => true,
            _ => false,
        }),
{
    let ghost ms = items_model(items@);
    let mut acc: Vec<KlineData> = Vec::new();
    let mut i: usize = 0;
    proof {
        assert(ms.skip(0) =~= ms);
        assert(klines_model(acc@) =~= Seq::<KlineModel>::empty());
    }
    while i < items.len()
        invariant
            i <= items.len(),
            ms == items_model(items@),
            (match spec_klines_seq(ms.skip(i as int)) {
                Some(rest) => spec_klines_seq(ms) == Some(klines_model(acc@) + rest),
                None => spec_klines_seq(ms) is None,
            }),
        decreases items.len() - i,
    {
        proof {
            assert(ms.skip(i as int)[0] == ms[i as int]);
            assert(ms.skip(i as int).skip(1) =~= ms.skip(i + 1));
        }
        match parse_kline(&items[i]) {
            Some(k) => {
                proof {
                    let km = k.model();
                    if let Some(rest2) = spec_klines_seq(ms.skip(i + 1)) {
                        assert(klines_model(acc@.push(k)) + rest2 =~= klines_model(acc@) + (
                        seq![km] + rest2));
                    }
                }
                acc.push(k);
            },
            None => {
                return None;
            },
        }
        i = i + 1;
    }
    proof {
        assert(ms.skip(i as int) =~= Seq::<JsonModel>::empty());
        assert(klines_model(acc@) + Seq::<KlineModel>::empty() =~= klines_model(acc@));
    }
    Some(acc)
}

/// One wallet account entry.
pub open spec fn spec_wallet_account(m: JsonModel) -> Option<WalletAccountModel> {
    match m {
        JsonModel::Obj(d) => {
            match (
                spec_str_field(d, "accountType".spec_bytes()),
                spec_str_field(d, "totalEquity".spec_bytes()),
            ) {
                (Some(at), Some(te)) => Some(
                    WalletAccountModel { account_type: at, total_equity: te },
                ),
                _ => None,
            }
        },
        _ => None,
    }
}

pub open spec fn spec_wallet_accounts_seq(ms: Seq<JsonModel>) -> Option<Seq<WalletAccountModel>>
    decreases ms.len(),
{
    if ms.len() == 0 {
        Some(Seq::<WalletAccountModel>::empty())
    } else {
        match spec_wallet_account(ms[0]) {
            None => None,
            Some(w) => match spec_wallet_accounts_seq(ms.skip(1)) {
                None => None,
                Some(rest) => Some(seq![w] + rest),
            },
        }
    }
}

fn parse_wallet_account(v: &JsonValue) -> (r: Option<WalletAccountData>)
    ensures
        (match (r, spec_wallet_account(v.model())) {
            (Some(w), Some(m)) => w.model() == m,
            (None, None) => true,
            _ => false,
        }),
{
    let at = str_field(v, "accountType".as_bytes());
    let te = str_field(v, "totalEquity".as_bytes());
    match (at, te) {
        (Some(at), Some(te)) => Some(WalletAccountData { account_type: at, total_equity: te }),
        _ => None,
    }
}

fn parse_wallet_accounts(items: &Vec<JsonValue>) -> (r: Option<Vec<WalletAccountData>>)
    ensures
        (match (r, spec_wallet_accounts_seq(items_model(items@))) {
            (Some(ws), Some(ms)) => wallet_accounts_model(ws@) == ms,
            (None, None) => true,
            _ => false,
        }),
{
    let ghost ms = items_model(items@);
    let mut acc: Vec<WalletAccountData> = Vec::new();
    let mut i: usize = 0;
    proof {
        assert(ms.skip(0) =~= ms);
        assert(wallet_accounts_model(acc@) =~= Seq::<WalletAccountModel>::empty());
    }
    while i < items.len()
        invariant
            i <= items.len(),
            ms == items_model(items@),
            (match spec_wallet_accounts_seq(ms.skip(i as int)) {
                Some(rest) => spec_wallet_accounts_seq(ms) == Some(
                    wallet_accounts_model(acc@) + rest,
                ),
                None => spec_wallet_accounts_seq(ms) is None,
            }),
        decreases items.len() - i,
    {
        proof {
            assert(ms.skip(i as int)[0] == ms[i as int]);
            assert(ms.skip(i as int).skip(1) =~= ms.skip(i + 1));
        }
        match parse_wallet_account(&items[i]) {
            Some(w) => {
                proof {
                    let wm = w.model();
                    if let Some(rest2) = spec_wallet_accounts_seq(ms.skip(i + 1)) {
                        assert(wallet_accounts_model(acc@.push(w)) + rest2
                            =~= wallet_accounts_model(acc@) + (seq![wm] + rest2));
                    }
                }
                acc.push(w);
            },
            None => {
                return None;
            },
        }
        i = i + 1;
    }
    proof {
        assert(ms.skip(i as int) =~= Seq::<JsonModel>::empty());
        assert(wallet_accounts_model(acc@) + Seq::<WalletAccountModel>::empty()
            =~= wallet_accounts_model(acc@));
    }
    Some(acc)
}


/// Levels of the member `key`, if present as an array of well-formed levels.
pub open spec fn spec_levels_field(d: Seq<(Seq<u8>, JsonModel)>, key: Seq<u8>) -> Option<
    Seq<LevelModel>,
> {
    match spec_arr_field(d, key) {
        Some(ms) => spec_levels_seq(ms),
        None => None,
    }
}

/// Strict parse of an orderbook envelope: type, ts, and a data object with
/// symbol, bid levels, ask levels, update id and sequence.
pub open spec fn spec_orderbook_update(ps: Seq<(Seq<u8>, JsonModel)>, topic: Seq<u8>) -> Option<
    OrderBookUpdateModel,
> {
    match (
        spec_str_field(ps, "type".spec_bytes()),
        spec_u64_field(ps, "ts".spec_bytes()),
        spec_obj_field(ps, "data".spec_bytes()),
    ) {
        (Some(ty), Some(ts), Some(d)) => {
            match (
                spec_str_field(d, "s".spec_bytes()),
                spec_levels_field(d, "b".spec_bytes()),
                spec_levels_field(d, "a".spec_bytes()),
                spec_u64_field(d, "u".spec_bytes()),
                spec_u64_field(d, "seq".spec_bytes()),
            ) {
                (Some(sym), Some(bids), Some(asks), Some(u), Some(sq)) => Some(
                    OrderBookUpdateModel {
                        topic,
                        event_type: ty,
                        ts,
                        data: OrderBookDataModel {
                            symbol: sym,
                            bids,
                            asks,
                            update_id: u,
                            sequence: sq,
                        },
                    },
                ),
                _ => None,
            }
        },
        _ => None,
    }
}

fn parse_orderbook_update(v: &JsonValue, topic: Vec<u8>) -> (r: Option<OrderBookUpdate>)
    ensures
        (match v.model() {
            JsonModel::Obj(ps) => match (r, spec_orderbook_update(ps, topic@)) {
                (Some(u), Some(m)) => u.model() == m,
                (None, None) => true,
                _ => false,
            },
            _ => r is None,
        }),
{
    let ty = str_field(v, "type".as_bytes());
    let ts = u64_field(v, "ts".as_bytes());
    let data = match obj_field(v, "data".as_bytes()) {
        Some(d) => d,
        None => {
            return None;
        },
    };
    let sym = str_field(data, "s".as_bytes());
    let bids = match arr_field(data, "b".as_bytes()) {
        Some(items) => parse_levels(items),
        None => None,
    };
    let asks = match arr_field(data, "a".as_bytes()) {
        Some(items) => parse_levels(items),
        None => None,
    };
    let u = u64_field(data, "u".as_bytes());
    let sq = u64_field(data, "seq".as_bytes());
    match (ty, ts, sym, bids, asks, u, sq) {
        (Some(ty), Some(ts), Some(sym), Some(bids), Some(asks), Some(u), Some(sq)) => Some(
            OrderBookUpdate {
                topic,
                event_type: ty,
                ts,
                data: OrderBookData { symbol: sym, bids, asks, update_id: u, sequence: sq },
            },
        ),
        _ => None,
    }
}

/// Strict parse of a trade batch envelope: ts and a data array of trades.
pub open spec fn spec_trade_update(ps: Seq<(Seq<u8>, JsonModel)>, topic: Seq<u8>) -> Option<
    TradeUpdateModel,
> {
    match (spec_u64_field(ps, "ts".spec_bytes()), spec_arr_field(ps, "data".spec_bytes())) {
        (Some(ts), Some(ms)) => {
            match spec_trades_seq(ms) {
                Some(trades) => Some(TradeUpdateModel { topic, ts, data: trades }),
                None => None,
            }
        },
        _ => None,
    }
}

fn parse_trade_update(v: &JsonValue, topic: Vec<u8>) -> (r: Option<TradeUpdate>)
    ensures
        (match v.model() {
            JsonModel::Obj(ps) => match (r, spec_trade_update(ps, topic@)) {
                (Some(u), Some(m)) => u.model() == m,
                (None, None) => true,
                _ => false,
            },
            _ => r is None,
        }),
{
    let ts = u64_field(v, "ts".as_bytes());
    let trades = match arr_field(v, "data".as_bytes()) {
        Some(items) => parse_trades(items),
        None => None,
    };
    match (ts, trades) {
        (Some(ts), Some(trades)) => Some(TradeUpdate { topic, ts, data: trades }),
        _ => None,
    }
}

/// Strict parse of a ticker envelope. The payload shape is discriminated by
/// the presence of a `tickDirection` field, which only the derivative shape
/// carries.
pub open spec fn spec_ticker_update(ps: Seq<(Seq<u8>, JsonModel)>, topic: Seq<u8>) -> Option<
    TickerUpdateModel,
> {
    match (spec_u64_field(ps, "ts".spec_bytes()), spec_obj_field(ps, "data".spec_bytes())) {
        (Some(ts), Some(d)) => {
            if spec_str_field(d, "tickDirection".spec_bytes()) is Some {
                match (
                    spec_str_field(d, "symbol".spec_bytes()),
                    spec_str_field(d, "lastPrice".spec_bytes()),
                    spec_str_field(d, "markPrice".spec_bytes()),
                    spec_str_field(d, "tickDirection".spec_bytes()),
                ) {
                    (Some(sym), Some(lp), Some(mp), Some(td)) => Some(
                        TickerUpdateModel {
                            topic,
                            ts,
                            data: TickersModel::Linear(
                                LinearTickerModel {
                                    symbol: sym,
                                    last_price: lp,
                                    mark_price: mp,
                                    tick_direction: td,
                                },
                            ),
                        },
                    ),
                    _ => None,
                }
            } else {
                match (
                    spec_str_field(d, "symbol".spec_bytes()),
                    spec_str_field(d, "lastPrice".spec_bytes()),
                    spec_str_field(d, "volume24h".spec_bytes()),
                ) {
                    (Some(sym), Some(lp), Some(vol)) => Some(
                        TickerUpdateModel {
                            topic,
                            ts,
                            data: TickersModel::Spot(
                                SpotTickerModel {
                                    symbol: sym,
                                    last_price: lp,
                                    volume_24h: vol,
                                },
                            ),
                        },
                    ),
                    _ => None,
                }
            }
        },
        _ => None,
    }
}

fn parse_ticker_update(v: &JsonValue, topic: Vec<u8>) -> (r: Option<TickerUpdate>)
    ensures
        (match v.model() {
            JsonModel::Obj(ps) => match (r, spec_ticker_update(ps, topic@)) {
                (Some(u), Some(m)) => u.model() == m,
                (None, None) => true,
                _ => false,
            },
            _ => r is None,
        }),
{
    let ts = match u64_field(v, "ts".as_bytes()) {
        Some(ts) => ts,
        None => {
            return None;
        },
    };
    let data = match obj_field(v, "data".as_bytes()) {
        Some(d) => d,
        None => {
            return None;
        },
    };
    let td = str_field(data, "tickDirection".as_bytes());
    match td {
        Some(td) => {
            let sym = str_field(data, "symbol".as_bytes());
            let lp = str_field(data, "lastPrice".as_bytes());
            let mp = str_field(data, "markPrice".as_bytes());
            match (sym, lp, mp) {
                (Some(sym), Some(lp), Some(mp)) => Some(
                    TickerUpdate {
                        topic,
                        ts,
                        data: Tickers::Linear(
                            LinearTickerData {
                                symbol: sym,
                                last_price: lp,
                                mark_price: mp,
                                tick_direction: td,
                            },
                        ),
                    },
                ),
                _ => None,
            }
        },
        None => {
            let sym = str_field(data, "symbol".as_bytes());
            let lp = str_field(data, "lastPrice".as_bytes());
            let vol = str_field(data, "volume24h".as_bytes());
            match (sym, lp, vol) {
                (Some(sym), Some(lp), Some(vol)) => Some(
                    TickerUpdate {
                        topic,
                        ts,
                        data: Tickers::Spot(
                            SpotTickerData { symbol: sym, last_price: lp, volume_24h: vol },
                        ),
                    },
                ),
                _ => None,
            }
        },
    }
}

/// Strict parse of a candlestick batch envelope.
pub open spec fn spec_kline_update(ps: Seq<(Seq<u8>, JsonModel)>, topic: Seq<u8>) -> Option<
    KlineUpdateModel,
> {
    match (spec_u64_field(ps, "ts".spec_bytes()), spec_arr_field(ps, "data".spec_bytes())) {
        (Some(ts), Some(ms)) => {
            match spec_klines_seq(ms) {
                Some(klines) => Some(KlineUpdateModel { topic, ts, data: klines }),
                None => None,
            }
        },
        _ => None,
    }
}

fn parse_kline_update(v: &JsonValue, topic: Vec<u8>) -> (r: Option<KlineUpdate>)
    ensures
        (match v.model() {
            JsonModel::Obj(ps) => match (r, spec_kline_update(ps, topic@)) {
                (Some(u), Some(m)) => u.model() == m,
                (None, None) => true,
                _ => false,
            },
            _ => r is None,
        }),
{
    let ts = u64_field(v, "ts".as_bytes());
    let klines = match arr_field(v, "data".as_bytes()) {
        Some(items) => parse_klines(items),
        None => None,
    };
    match (ts, klines) {
        (Some(ts), Some(klines)) => Some(KlineUpdate { topic, ts, data: klines }),
        _ => None,
    }
}

/// Strict parse of a liquidation envelope: ts and a data object.
pub open spec fn spec_liquidation_update(ps: Seq<(Seq<u8>, JsonModel)>, topic: Seq<u8>) -> Option<
    LiquidationUpdateModel,
> {
    match (spec_u64_field(ps, "ts".spec_bytes()), spec_obj_field(ps, "data".spec_bytes())) {
        (Some(ts), Some(d)) => {
            match (
                spec_u64_field(d, "updatedTime".spec_bytes()),
                spec_str_field(d, "symbol".spec_bytes()),
                spec_str_field(d, "side".spec_bytes()),
                spec_str_field(d, "size".spec_bytes()),
                spec_str_field(d, "price".spec_bytes()),
            ) {
                (Some(ut), Some(sym), Some(side), Some(size), Some(price)) => Some(
                    LiquidationUpdateModel {
                        topic,
                        ts,
                        data: LiquidationModel {
                            updated_time: ut,
                            symbol: sym,
                            side,
                            size,
                            price,
                        },
                    },
                ),
                _ => None,
            }
        },
        _ => None,
    }
}

fn parse_liquidation_update(v: &JsonValue, topic: Vec<u8>) -> (r: Option<LiquidationUpdate>)
    ensures
        (match v.model() {
            JsonModel::Obj(ps) => match (r, spec_liquidation_update(ps, topic@)) {
                (Some(u), Some(m)) => u.model() == m,
                (None, None) => true,
                _ => false,
            },
            _ => r is None,
        }),
{
    let ts = match u64_field(v, "ts".as_bytes()) {
        Some(ts) => ts,
        None => {
            return None;
        },
    };
    let data = match obj_field(v, "data".as_bytes()) {
        Some(d) => d,
        None => {
            return None;
        },
    };
    let ut = u64_field(data, "updatedTime".as_bytes());
    let sym = str_field(data, "symbol".as_bytes());
    let side = str_field(data, "side".as_bytes());
    let size = str_field(data, "size".as_bytes());
    let price = str_field(data, "price".as_bytes());
    match (ut, sym, side, size, price) {
        (Some(ut), Some(sym), Some(side), Some(size), Some(price)) => Some(
            LiquidationUpdate {
                topic,
                ts,
                data: LiquidationData { updated_time: ut, symbol: sym, side, size, price },
            },
        ),
        _ => None,
    }
}

/// Strict parse of a private wallet envelope: creation time and a data array
/// of account summaries.
pub open spec fn spec_wallet_update(ps: Seq<(Seq<u8>, JsonModel)>, topic: Seq<u8>) -> Option<
    WalletUpdateModel,
> {
    match (
        spec_u64_field(ps, "creationTime".spec_bytes()),
        spec_arr_field(ps, "data".spec_bytes()),
    ) {
        (Some(ct), Some(ms)) => {
            match spec_wallet_accounts_seq(ms) {
                Some(accounts) => Some(
                    WalletUpdateModel { topic, creation_time: ct, data: accounts },
                ),
                None => None,
            }
        },
        _ => None,
    }
}

fn parse_wallet_update(v: &JsonValue, topic: Vec<u8>) -> (r: Option<WalletUpdate>)
    ensures
        (match v.model() {
            JsonModel::Obj(ps) => match (r, spec_wallet_update(ps, topic@)) {
                (Some(u), Some(m)) => u.model() == m,
                (None, None) => true,
                _ => false,
            },
            _ => r is None,
        }),
{
    let ct = u64_field(v, "creationTime".as_bytes());
    let accounts = match arr_field(v, "data".as_bytes()) {
        Some(items) => parse_wallet_accounts(items),
        None => None,
    };
    match (ct, accounts) {
        (Some(ct), Some(accounts)) => Some(
            WalletUpdate { topic, creation_time: ct, data: accounts },
        ),
        _ => None,
    }
}

/// The `success` flag of an acknowledgement; absent or non-boolean means
/// success.
pub open spec fn spec_success(ps: Seq<(Seq<u8>, JsonModel)>) -> bool {
    match spec_bool_field(ps, "success".spec_bytes()) {
        Some(b) => b,
        None => true,
    }
}

/// Dispatch on the channel prefix of the topic (the part before the first
/// dot): known channels get their strict parser, everything else becomes the
/// catch-all `Unknown` event.
pub open spec fn spec_decode_topic(ps: Seq<(Seq<u8>, JsonModel)>, topic: Seq<u8>) -> Result<
    EventModel,
    DecodeError,
> {
    let channel = topic.take(spec_find_byte(topic, 46, 0));
    if channel == "orderbook".spec_bytes() {
        match spec_orderbook_update(ps, topic) {
            Some(m) => Ok(EventModel::OrderBook(m)),
            None => Err(DecodeError::WrongShape),
        }
    } else if channel == "publicTrade".spec_bytes() {
        match spec_trade_update(ps, topic) {
            Some(m) => Ok(EventModel::Trade(m)),
            None => Err(DecodeError::WrongShape),
        }
    } else if channel == "tickers".spec_bytes() {
        match spec_ticker_update(ps, topic) {
            Some(m) => Ok(EventModel::Ticker(m)),
            None => Err(DecodeError::WrongShape),
        }
    } else if channel == "kline".spec_bytes() {
        match spec_kline_update(ps, topic) {
            Some(m) => Ok(EventModel::Kline(m)),
            None => Err(DecodeError::WrongShape),
        }
    } else if channel == "liquidation".spec_bytes() {
        match spec_liquidation_update(ps, topic) {
            Some(m) => Ok(EventModel::Liquidation(m)),
            None => Err(DecodeError::WrongShape),
        }
    } else if channel == "wallet".spec_bytes() {
        match spec_wallet_update(ps, topic) {
            Some(m) => Ok(EventModel::Wallet(m)),
            None => Err(DecodeError::WrongShape),
        }
    } else {
        Ok(EventModel::Unknown(topic))
    }
}

/// Decode of a parsed envelope object: a string `topic` member dispatches on
/// its channel; otherwise a string `op` member makes an acknowledgement.
pub open spec fn spec_decode_obj(ps: Seq<(Seq<u8>, JsonModel)>) -> Result<
    EventModel,
    DecodeError,
> {
    match spec_str_field(ps, "topic".spec_bytes()) {
        Some(topic) => spec_decode_topic(ps, topic),
        None => match spec_str_field(ps, "op".spec_bytes()) {
            Some(op) => Ok(EventModel::Pong(OpResponseModel { op, success: spec_success(ps) })),
            None => Err(DecodeError::WrongShape),
        },
    }
}

/// What `decode` returns for a raw frame, for every possible frame.
pub open spec fn spec_decode(s: Seq<u8>) -> Result<EventModel, DecodeError> {
    match spec_parse_json(s) {
        None => Err(DecodeError::NotJson),
        Some(JsonModel::Obj(ps)) => spec_decode_obj(ps),
        Some(_) => Err(DecodeError::WrongShape),
    }
}

/// Decodes one raw inbound frame into a typed event.
///
/// A frame that is not JSON, or whose claimed shape does not parse strictly,
/// is an error; a well-formed envelope with an unrecognized topic is the
/// catch-all `UnknownEvent`.
pub fn decode(frame: &[u8]) -> (r: Result<WebsocketEvents, DecodeError>)
    ensures
        (match (r, spec_decode(frame@)) {
            (Ok(ev), Ok(m)) => ev.model() == m,
            (Err(e), Err(me)) => e == me,
            _ => false,
        }),
{
    let v = match crate::json::parse_json(frame) {
        Some(v) => v,
        None => {
            return Err(DecodeError::NotJson);
        },
    };
    match &v {
        JsonValue::Obj(_) => {},
        _ => {
            return Err(DecodeError::WrongShape);
        },
    }
    match str_field(&v, "topic".as_bytes()) {
        Some(topic) => {
            let ghost topic_model = topic@;
            let dot = find_byte(topic.as_slice(), 46);
            let channel = vstd::slice::slice_subrange(topic.as_slice(), 0, dot);
            proof {
                assert(channel@ =~= topic_model.take(spec_find_byte(topic_model, 46, 0)));
            }
            if crate::bytes_eq(channel, "orderbook".as_bytes()) {
                match parse_orderbook_update(&v, topic) {
                    Some(u) => Ok(WebsocketEvents::OrderBookEvent(u)),
                    None => Err(DecodeError::WrongShape),
                }
            } else if crate::bytes_eq(channel, "publicTrade".as_bytes()) {
                match parse_trade_update(&v, topic) {
                    Some(u) => Ok(WebsocketEvents::TradeEvent(u)),
                    None => Err(DecodeError::WrongShape),
                }
            } else if crate::bytes_eq(channel, "tickers".as_bytes()) {
                match parse_ticker_update(&v, topic) {
                    Some(u) => Ok(WebsocketEvents::TickerEvent(u)),
                    None => Err(DecodeError::WrongShape),
                }
            } else if crate::bytes_eq(channel, "kline".as_bytes()) {
                match parse_kline_update(&v, topic) {
                    Some(u) => Ok(WebsocketEvents::KlineEvent(u)),
                    None => Err(DecodeError::WrongShape),
                }
            } else if crate::bytes_eq(channel, "liquidation".as_bytes()) {
                match parse_liquidation_update(&v, topic) {
                    Some(u) => Ok(WebsocketEvents::LiquidationEvent(u)),
                    None => Err(DecodeError::WrongShape),
                }
            } else if crate::bytes_eq(channel, "wallet".as_bytes()) {
                match parse_wallet_update(&v, topic) {
                    Some(u) => Ok(WebsocketEvents::WalletEvent(u)),
                    None => Err(DecodeError::WrongShape),
                }
            } else {
                Ok(WebsocketEvents::UnknownEvent(topic))
            }
        },
        None => {
            match str_field(&v, "op".as_bytes()) {
                Some(op) => {
                    let success = match bool_field(&v, "success".as_bytes()) {
                        Some(b) => b,
                        None => true,
                    };
                    Ok(WebsocketEvents::PongEvent(OpResponse { op, success }))
                },
                None => Err(DecodeError::WrongShape),
            }
        },
    }
}


/// Appends `src` to `dst`.
pub fn push_bytes(dst: &mut Vec<u8>, src: &[u8])
    ensures
        final(dst)@ == old(dst)@ + src@,
{
    let mut i: usize = 0;
    proof {
        assert(dst@ =~= old(dst)@ + src@.take(0));
    }
    while i < src.len()
        invariant
            i <= src@.len(),
            dst@ == old(dst)@ + src@.take(i as int),
        decreases src@.len() - i,
    {
        proof {
            assert((old(dst)@ + src@.take(i as int)).push(src@[i as int]) =~= old(dst)@
                + src@.take(i + 1));
        }
        dst.push(src[i]);
        i = i + 1;
    }
    proof {
        assert(src@.take(src@.len() as int) =~= src@);
    }
}

/// The lower-case hex digit for a value below 16.
pub open spec fn spec_hex_digit(n: u8) -> u8 {
    if n < 10 {
        (48 + n) as u8
    } else {
        (87 + n) as u8
    }
}

/// The JSON escape of one string-content byte.
pub open spec fn spec_escape_byte(b: u8) -> Seq<u8> {
    if b == 34 {
        seq![92u8, 34u8]
    } else if b == 92 {
        seq![92u8, 92u8]
    } else if b == 10 {
        seq![92u8, 110u8]
    } else if b == 13 {
        seq![92u8, 114u8]
    } else if b == 9 {
        seq![92u8, 116u8]
    } else if b < 32 {
        seq![92u8, 117u8, 48u8, 48u8, spec_hex_digit(b / 16), spec_hex_digit(b % 16)]
    } else {
        seq![b]
    }
}

/// The JSON escape of string content.
pub open spec fn spec_escape(s: Seq<u8>) -> Seq<u8>
    decreases s.len(),
{
    if s.len() == 0 {
        Seq::<u8>::empty()
    } else {
        spec_escape_byte(s[0]) + spec_escape(s.skip(1))
    }
}

pub(crate) fn push_escaped(dst: &mut Vec<u8>, s: &[u8])
    ensures
        final(dst)@ == old(dst)@ + spec_escape(s@),
{
    let mut i: usize = 0;
    proof {
        assert(s@.skip(0) =~= s@);
    }
    while i < s.len()
        invariant
            i <= s@.len(),
            dst@ + spec_escape(s@.skip(i as int)) == old(dst)@ + spec_escape(s@),
        decreases s@.len() - i,
    {
        let b = s[i];
        proof {
            assert(s@.skip(i as int)[0] == s@[i as int]);
            assert(s@.skip(i as int).skip(1) =~= s@.skip(i + 1));
        }
        if b == 34 {
            dst.push(92);
            dst.push(34);
        } else if b == 92 {
            dst.push(92);
            dst.push(92);
        } else if b == 10 {
            dst.push(92);
            dst.push(110);
        } else if b == 13 {
            dst.push(92);
            dst.push(114);
        } else if b == 9 {
            dst.push(92);
            dst.push(116);
        } else if b < 32 {
            dst.push(92);
            dst.push(117);
            dst.push(48);
            dst.push(48);
            let hi = b / 16;
            let lo = b % 16;
            dst.push(if hi < 10 { 48 + hi } else { 87 + hi });
            dst.push(if lo < 10 { 48 + lo } else { 87 + lo });
        } else {
            dst.push(b);
        }
        proof {
            assert(dst@ =~= (old(dst)@ + spec_escape(s@)).subrange(
                0,
                dst@.len() as int,
            )) by {
                assert(dst@.len() <= (old(dst)@ + spec_escape(s@)).len());
            }
        }
        i = i + 1;
    }
    proof {
        assert(spec_escape(s@.skip(s@.len() as int)) =~= Seq::<u8>::empty());
        assert(dst@ + Seq::<u8>::empty() =~= dst@);
    }
}

/// A quoted, escaped JSON string.
pub open spec fn spec_quoted(s: Seq<u8>) -> Seq<u8> {
    seq![34u8] + spec_escape(s) + seq![34u8]
}

pub(crate) fn push_quoted(dst: &mut Vec<u8>, s: &[u8])
    ensures
        final(dst)@ == old(dst)@ + spec_quoted(s@),
{
    dst.push(34);
    push_escaped(dst, s);
    dst.push(34);
    proof {
        assert(dst@ =~= old(dst)@ + spec_quoted(s@));
    }
}

/// The decimal digits of `n`.
pub open spec fn spec_dec_u64(n: nat) -> Seq<u8>
    decreases n,
{
    if n < 10 {
        seq![(48 + n) as u8]
    } else {
        spec_dec_u64(n / 10) + seq![(48 + n % 10) as u8]
    }
}

/// The decimal digits of `n` as bytes.
pub fn u64_to_dec(n: u64) -> (r: Vec<u8>)
    ensures
        r@ == spec_dec_u64(n as nat),
    decreases n,
{
    if n < 10 {
        let mut v: Vec<u8> = Vec::new();
        v.push(48 + (n as u8));
        proof {
            assert(v@ =~= spec_dec_u64(n as nat));
        }
        v
    } else {
        let mut v = u64_to_dec(n / 10);
        v.push(48 + ((n % 10) as u8));
        proof {
            assert(v@ =~= spec_dec_u64((n / 10) as nat) + seq![(48 + n % 10) as u8]);
        }
        v
    }
}

/// The views of a list of byte strings.
pub open spec fn byte_seqs(v: Seq<Vec<u8>>) -> Seq<Seq<u8>> {
    Seq::new(v.len(), |i: int| v[i]@)
}

/// A comma-separated list of quoted strings.
pub open spec fn spec_args_list(args: Seq<Seq<u8>>) -> Seq<u8>
    decreases args.len(),
{
    if args.len() == 0 {
        Seq::<u8>::empty()
    } else if args.len() == 1 {
        spec_quoted(args[0])
    } else {
        spec_quoted(args[0]) + seq![44u8] + spec_args_list(args.skip(1))
    }
}

/// The exact request control frame for an operation with string arguments:
/// a JSON object with `op` and `args` members.
pub open spec fn spec_op_frame(op: Seq<u8>, args: Seq<Seq<u8>>) -> Seq<u8> {
    "{\"op\":".spec_bytes() + spec_quoted(op) + ",\"args\":[".spec_bytes() + spec_args_list(args)
        + "]}".spec_bytes()
}

/// Encodes a request control frame carrying an operation and its topic
/// arguments, exactly as the exchange expects it.
pub fn encode_request(op: &[u8], args: &Vec<Vec<u8>>) -> (r: Vec<u8>)
    ensures
        r@ == spec_op_frame(op@, byte_seqs(args@)),
{
    let ghost arg_models = byte_seqs(args@);
    let mut out: Vec<u8> = Vec::new();
    push_bytes(&mut out, "{\"op\":".as_bytes());
    push_quoted(&mut out, op);
    push_bytes(&mut out, ",\"args\":[".as_bytes());
    let ghost list_start = out@;
    let mut i: usize = 0;
    proof {
        assert(arg_models.skip(0) =~= arg_models);
    }
    while i < args.len()
        invariant
            i <= args@.len(),
            arg_models == byte_seqs(args@),
            out@ + spec_args_list(arg_models.skip(i as int)) == list_start + spec_args_list(
                arg_models,
            ),
        decreases args@.len() - i,
    {
        proof {
            assert(arg_models.skip(i as int)[0] == arg_models[i as int]);
            assert(arg_models.skip(i as int).skip(1) =~= arg_models.skip(i + 1));
        }
        push_quoted(&mut out, args[i].as_slice());
        if i + 1 < args.len() {
            out.push(44);
        }
        proof {
            assert(out@ + spec_args_list(arg_models.skip(i + 1)) =~= list_start + spec_args_list(
                arg_models,
            ));
        }
        i = i + 1;
    }
    proof {
        assert(spec_args_list(arg_models.skip(args@.len() as int)) =~= Seq::<u8>::empty());
        assert(out@ + Seq::<u8>::empty() =~= out@);
    }
    push_bytes(&mut out, "]}".as_bytes());
    proof {
        assert(out@ =~= spec_op_frame(op@, arg_models));
    }
    out
}

/// The exact subscribe control frame for a list of topics.
pub open spec fn spec_subscribe_frame(args: Seq<Seq<u8>>) -> Seq<u8> {
    spec_op_frame("subscribe".spec_bytes(), args)
}

/// Encodes the subscribe control frame for a list of topics.
pub fn encode_subscribe(topics: &Vec<Vec<u8>>) -> (r: Vec<u8>)
    ensures
        r@ == spec_subscribe_frame(byte_seqs(topics@)),
{
    encode_request("subscribe".as_bytes(), topics)
}

/// The exact ping control frame.
pub open spec fn spec_ping_frame() -> Seq<u8> {
    "{\"op\":\"ping\"}".spec_bytes()
}

/// Encodes the ping control frame.
pub fn encode_ping() -> (r: Vec<u8>)
    ensures
        r@ == spec_ping_frame(),
{
    let mut out: Vec<u8> = Vec::new();
    push_bytes(&mut out, "{\"op\":\"ping\"}".as_bytes());
    proof {
        assert(out@ =~= spec_ping_frame());
    }
    out
}

/// The exact auth control frame: `{"op":"auth","args":[key, expires,
/// signature]}` with the expiry as a bare number.
pub open spec fn spec_auth_frame(api_key: Seq<u8>, expires: u64, signature: Seq<u8>) -> Seq<u8> {
    "{\"op\":\"auth\",\"args\":[".spec_bytes() + spec_quoted(api_key) + seq![44u8]
        + spec_dec_u64(expires as nat) + seq![44u8] + spec_quoted(signature) + "]}".spec_bytes()
}

/// Encodes the private-stream auth control frame. The signature is supplied
/// by the authentication collaborator; this codec only frames it.
pub fn encode_auth(api_key: &[u8], expires: u64, signature: &[u8]) -> (r: Vec<u8>)
    ensures
        r@ == spec_auth_frame(api_key@, expires, signature@),
{
    let mut out: Vec<u8> = Vec::new();
    push_bytes(&mut out, "{\"op\":\"auth\",\"args\":[".as_bytes());
    push_quoted(&mut out, api_key);
    out.push(44);
    let expires_digits = u64_to_dec(expires);
    push_bytes(&mut out, expires_digits.as_slice());
    out.push(44);
    push_quoted(&mut out, signature);
    push_bytes(&mut out, "]}".as_bytes());
    proof {
        assert(out@ =~= spec_auth_frame(api_key@, expires, signature@));
    }
    out
}

/// Forward compatibility: an envelope whose topic's channel prefix is not one
/// of the known channels decodes to the catch-all `Unknown` event — never to
/// an error — so one unrecognized message cannot terminate the stream.
pub proof fn lemma_unknown_topic_not_fatal(ps: Seq<(Seq<u8>, JsonModel)>, topic: Seq<u8>)
    requires
        spec_str_field(ps, "topic".spec_bytes()) == Some(topic),
        ({
            let channel = topic.take(spec_find_byte(topic, 46, 0));
            &&& channel != "orderbook".spec_bytes()
            &&& channel != "publicTrade".spec_bytes()
            &&& channel != "tickers".spec_bytes()
            &&& channel != "kline".spec_bytes()
            &&& channel != "liquidation".spec_bytes()
            &&& channel != "wallet".spec_bytes()
        }),
    ensures
        spec_decode_obj(ps) == Ok::<EventModel, DecodeError>(EventModel::Unknown(topic)),
{
}

} // verus!
