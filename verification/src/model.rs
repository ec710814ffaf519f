//! Typed domain objects: market categories, subscription requests, and the
//! closed set of decoded websocket events.
//!
//! Textual payload fields (symbols, prices, quantities) are kept as their raw
//! byte content; decimal quantities in particular are never reinterpreted.

use vstd::prelude::*;

verus! {

/// Market category of an instrument.
#[derive(Clone, Copy, PartialEq, Eq, Structural, Debug)]
pub enum Category {
    Spot,
    Linear,
    Inverse,
    Options,
}

impl Category {
    /// The wire name of the category.
    pub fn as_str(&self) -> (r: &'static str)
        ensures
            (match self {
                Category::Spot => r@ == "spot"@,
                Category::Linear => r@ == "linear"@,
                Category::Inverse => r@ == "inverse"@,
                Category::Options => r@ == "option"@,
            }),
    {
        match self {
            Category::Spot => "spot",
            Category::Linear => "linear",
            Category::Inverse => "inverse",
            Category::Options => "option",
        }
    }
}

/// A caller-facing subscription request: an operation tag plus raw topic
/// argument strings. Constructed per call and consumed by the session.
#[derive(Clone, Debug)]
pub struct Subscription {
    pub op: String,
    pub args: Vec<String>,
}

/// One price level of an orderbook side: price and quantity as the literal
/// decimal strings from the payload.
#[derive(Clone, Debug, PartialEq, Eq)]
pub struct OrderBookLevel {
    pub price: Vec<u8>,
    pub qty: Vec<u8>,
}

/// Orderbook state for one symbol.
#[derive(Clone, Debug, PartialEq, Eq)]
pub struct OrderBookData {
    pub symbol: Vec<u8>,
    pub bids: Vec<OrderBookLevel>,
    pub asks: Vec<OrderBookLevel>,
    pub update_id: u64,
    pub sequence: u64,
}

/// A decoded orderbook frame: either a snapshot or a delta.
#[derive(Clone, Debug, PartialEq, Eq)]
pub struct OrderBookUpdate {
    pub topic: Vec<u8>,
    pub event_type: Vec<u8>,
    pub ts: u64,
    pub data: OrderBookData,
}

/// One public trade.
#[derive(Clone, Debug, PartialEq, Eq)]
pub struct TradeData {
    pub timestamp: u64,
    pub symbol: Vec<u8>,
    pub side: Vec<u8>,
    pub volume: Vec<u8>,
    pub price: Vec<u8>,
}

/// A decoded batch of public trades.
#[derive(Clone, Debug, PartialEq, Eq)]
pub struct TradeUpdate {
    pub topic: Vec<u8>,
    pub ts: u64,
    pub data: Vec<TradeData>,
}

/// Ticker fields in the shape used by derivative instruments.
#[derive(Clone, Debug, PartialEq, Eq)]
pub struct LinearTickerData {
    pub symbol: Vec<u8>,
    pub last_price: Vec<u8>,
    pub mark_price: Vec<u8>,
    pub tick_direction: Vec<u8>,
}

/// Ticker fields in the shape used by spot instruments.
#[derive(Clone, Debug, PartialEq, Eq)]
pub struct SpotTickerData {
    pub symbol: Vec<u8>,
    pub last_price: Vec<u8>,
    pub volume_24h: Vec<u8>,
}

/// A ticker payload, discriminated by its shape.
#[derive(Clone, Debug, PartialEq, Eq)]
pub enum Tickers {
    Linear(LinearTickerData),
    Spot(SpotTickerData),
}

/// A decoded ticker frame.
#[derive(Clone, Debug, PartialEq, Eq)]
pub struct TickerUpdate {
    pub topic: Vec<u8>,
    pub ts: u64,
    pub data: Tickers,
}

/// One candlestick.
#[derive(Clone, Debug, PartialEq, Eq)]
pub struct KlineData {
    pub start: u64,
    pub end: u64,
    pub interval: Vec<u8>,
    pub open: Vec<u8>,
    pub close: Vec<u8>,
    pub high: Vec<u8>,
    pub low: Vec<u8>,
    pub volume: Vec<u8>,
    pub confirm: bool,
    pub timestamp: u64,
}

/// A decoded batch of candlesticks.
#[derive(Clone, Debug, PartialEq, Eq)]
pub struct KlineUpdate {
    pub topic: Vec<u8>,
    pub ts: u64,
    pub data: Vec<KlineData>,
}

/// One forced liquidation.
#[derive(Clone, Debug, PartialEq, Eq)]
pub struct LiquidationData {
    pub updated_time: u64,
    pub symbol: Vec<u8>,
    pub side: Vec<u8>,
    pub size: Vec<u8>,
    pub price: Vec<u8>,
}

/// A decoded liquidation frame.
#[derive(Clone, Debug, PartialEq, Eq)]
pub struct LiquidationUpdate {
    pub topic: Vec<u8>,
    pub ts: u64,
    pub data: LiquidationData,
}

/// Balance summary of one account in a wallet frame.
#[derive(Clone, Debug, PartialEq, Eq)]
pub struct WalletAccountData {
    pub account_type: Vec<u8>,
    pub total_equity: Vec<u8>,
}

/// A decoded private wallet frame.
#[derive(Clone, Debug, PartialEq, Eq)]
pub struct WalletUpdate {
    pub topic: Vec<u8>,
    pub creation_time: u64,
    pub data: Vec<WalletAccountData>,
}

/// An operation acknowledgement: a pong, or the ack of a subscribe or auth
/// request. `success` defaults to true when the field is absent.
#[derive(Clone, Debug, PartialEq, Eq)]
pub struct OpResponse {
    pub op: Vec<u8>,
    pub success: bool,
}

/// The closed set of decodable websocket events.
#[derive(Clone, Debug, PartialEq, Eq)]
pub enum WebsocketEvents {
    TradeEvent(TradeUpdate),
    OrderBookEvent(OrderBookUpdate),
    TickerEvent(TickerUpdate),
    KlineEvent(KlineUpdate),
    LiquidationEvent(LiquidationUpdate),
    WalletEvent(WalletUpdate),
    PongEvent(OpResponse),
    /// A structurally sound payload whose topic is not recognized; kept for
    /// forward compatibility, carrying the topic verbatim.
    UnknownEvent(Vec<u8>),
}


/// Spec model of an orderbook level.
pub struct LevelModel {
    pub price: Seq<u8>,
    pub qty: Seq<u8>,
}

impl OrderBookLevel {
    pub open spec fn model(&self) -> LevelModel {
        LevelModel { price: self.price@, qty: self.qty@ }
    }
}

pub open spec fn levels_model(ls: Seq<OrderBookLevel>) -> Seq<LevelModel> {
    Seq::new(ls.len(), |i: int| ls[i].model())
}

/// Spec model of an orderbook payload.
pub struct OrderBookDataModel {
    pub symbol: Seq<u8>,
    pub bids: Seq<LevelModel>,
    pub asks: Seq<LevelModel>,
    pub update_id: u64,
    pub sequence: u64,
}

impl OrderBookData {
    pub open spec fn model(&self) -> OrderBookDataModel {
        OrderBookDataModel {
            symbol: self.symbol@,
            bids: levels_model(self.bids@),
            asks: levels_model(self.asks@),
            update_id: self.update_id,
            sequence: self.sequence,
        }
    }
}

/// Spec model of an orderbook frame.
pub struct OrderBookUpdateModel {
    pub topic: Seq<u8>,
    pub event_type: Seq<u8>,
    pub ts: u64,
    pub data: OrderBookDataModel,
}

impl OrderBookUpdate {
    pub open spec fn model(&self) -> OrderBookUpdateModel {
        OrderBookUpdateModel {
            topic: self.topic@,
            event_type: self.event_type@,
            ts: self.ts,
            data: self.data.model(),
        }
    }
}

/// Spec model of one trade.
pub struct TradeModel {
    pub timestamp: u64,
    pub symbol: Seq<u8>,
    pub side: Seq<u8>,
    pub volume: Seq<u8>,
    pub price: Seq<u8>,
}

impl TradeData {
    pub open spec fn model(&self) -> TradeModel {
        TradeModel {
            timestamp: self.timestamp,
            symbol: self.symbol@,
            side: self.side@,
            volume: self.volume@,
            price: self.price@,
        }
    }
}

pub open spec fn trades_model(ts: Seq<TradeData>) -> Seq<TradeModel> {
    Seq::new(ts.len(), |i: int| ts[i].model())
}

/// Spec model of a trade batch frame.
pub struct TradeUpdateModel {
    pub topic: Seq<u8>,
    pub ts: u64,
    pub data: Seq<TradeModel>,
}

impl TradeUpdate {
    pub open spec fn model(&self) -> TradeUpdateModel {
        TradeUpdateModel { topic: self.topic@, ts: self.ts, data: trades_model(self.data@) }
    }
}

/// Spec model of a derivative-shape ticker.
pub struct LinearTickerModel {
    pub symbol: Seq<u8>,
    pub last_price: Seq<u8>,
    pub mark_price: Seq<u8>,
    pub tick_direction: Seq<u8>,
}

/// Spec model of a spot-shape ticker.
pub struct SpotTickerModel {
    pub symbol: Seq<u8>,
    pub last_price: Seq<u8>,
    pub volume_24h: Seq<u8>,
}

/// Spec model of a ticker payload.
pub enum TickersModel {
    Linear(LinearTickerModel),
    Spot(SpotTickerModel),
}

impl Tickers {
    pub open spec fn model(&self) -> TickersModel {
        match self {
            Tickers::Linear(t) => TickersModel::Linear(
                LinearTickerModel {
                    symbol: t.symbol@,
                    last_price: t.last_price@,
                    mark_price: t.mark_price@,
                    tick_direction: t.tick_direction@,
                },
            ),
            Tickers::Spot(t) => TickersModel::Spot(
                SpotTickerModel {
                    symbol: t.symbol@,
                    last_price: t.last_price@,
                    volume_24h: t.volume_24h@,
                },
            ),
        }
    }
}

/// Spec model of a ticker frame.
pub struct TickerUpdateModel {
    pub topic: Seq<u8>,
    pub ts: u64,
    pub data: TickersModel,
}

impl TickerUpdate {
    pub open spec fn model(&self) -> TickerUpdateModel {
        TickerUpdateModel { topic: self.topic@, ts: self.ts, data: self.data.model() }
    }
}

/// Spec model of one candlestick.
pub struct KlineModel {
    pub start: u64,
    pub end: u64,
    pub interval: Seq<u8>,
    pub open: Seq<u8>,
    pub close: Seq<u8>,
    pub high: Seq<u8>,
    pub low: Seq<u8>,
    pub volume: Seq<u8>,
    pub confirm: bool,
    pub timestamp: u64,
}

impl KlineData {
    pub open spec fn model(&self) -> KlineModel {
        KlineModel {
            start: self.start,
            end: self.end,
            interval: self.interval@,
            open: self.open@,
            close: self.close@,
            high: self.high@,
            low: self.low@,
            volume: self.volume@,
            confirm: self.confirm,
            timestamp: self.timestamp,
        }
    }
}

pub open spec fn klines_model(ks: Seq<KlineData>) -> Seq<KlineModel> {
    Seq::new(ks.len(), |i: int| ks[i].model())
}

/// Spec model of a candlestick batch frame.
pub struct KlineUpdateModel {
    pub topic: Seq<u8>,
    pub ts: u64,
    pub data: Seq<KlineModel>,
}

impl KlineUpdate {
    pub open spec fn model(&self) -> KlineUpdateModel {
        KlineUpdateModel { topic: self.topic@, ts: self.ts, data: klines_model(self.data@) }
    }
}

/// Spec model of a liquidation payload.
pub struct LiquidationModel {
    pub updated_time: u64,
    pub symbol: Seq<u8>,
    pub side: Seq<u8>,
    pub size: Seq<u8>,
    pub price: Seq<u8>,
}

/// Spec model of a liquidation frame.
pub struct LiquidationUpdateModel {
    pub topic: Seq<u8>,
    pub ts: u64,
    pub data: LiquidationModel,
}

impl LiquidationUpdate {
    pub open spec fn model(&self) -> LiquidationUpdateModel {
        LiquidationUpdateModel {
            topic: self.topic@,
            ts: self.ts,
            data: LiquidationModel {
                updated_time: self.data.updated_time,
                symbol: self.data.symbol@,
                side: self.data.side@,
                size: self.data.size@,
                price: self.data.price@,
            },
        }
    }
}

/// Spec model of one wallet account entry.
pub struct WalletAccountModel {
    pub account_type: Seq<u8>,
    pub total_equity: Seq<u8>,
}

impl WalletAccountData {
    pub open spec fn model(&self) -> WalletAccountModel {
        WalletAccountModel { account_type: self.account_type@, total_equity: self.total_equity@ }
    }
}

pub open spec fn wallet_accounts_model(ws: Seq<WalletAccountData>) -> Seq<WalletAccountModel> {
    Seq::new(ws.len(), |i: int| ws[i].model())
}

/// Spec model of a wallet frame.
pub struct WalletUpdateModel {
    pub topic: Seq<u8>,
    pub creation_time: u64,
    pub data: Seq<WalletAccountModel>,
}

impl WalletUpdate {
    pub open spec fn model(&self) -> WalletUpdateModel {
        WalletUpdateModel {
            topic: self.topic@,
            creation_time: self.creation_time,
            data: wallet_accounts_model(self.data@),
        }
    }
}

/// Spec model of an operation acknowledgement.
pub struct OpResponseModel {
    pub op: Seq<u8>,
    pub success: bool,
}

impl OpResponse {
    pub open spec fn model(&self) -> OpResponseModel {
        OpResponseModel { op: self.op@, success: self.success }
    }
}

/// Spec model of a decoded event.
pub enum EventModel {
    Trade(TradeUpdateModel),
    OrderBook(OrderBookUpdateModel),
    Ticker(TickerUpdateModel),
    Kline(KlineUpdateModel),
    Liquidation(LiquidationUpdateModel),
    Wallet(WalletUpdateModel),
    Pong(OpResponseModel),
    Unknown(Seq<u8>),
}

impl WebsocketEvents {
    pub open spec fn model(&self) -> EventModel {
        match self {
            WebsocketEvents::TradeEvent(u) => EventModel::Trade(u.model()),
            WebsocketEvents::OrderBookEvent(u) => EventModel::OrderBook(u.model()),
            WebsocketEvents::TickerEvent(u) => EventModel::Ticker(u.model()),
            WebsocketEvents::KlineEvent(u) => EventModel::Kline(u.model()),
            WebsocketEvents::LiquidationEvent(u) => EventModel::Liquidation(u.model()),
            WebsocketEvents::WalletEvent(u) => EventModel::Wallet(u.model()),
            WebsocketEvents::PongEvent(p) => EventModel::Pong(p.model()),
            WebsocketEvents::UnknownEvent(topic) => EventModel::Unknown(topic@),
        }
    }
}

} // verus!
