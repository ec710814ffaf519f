//! The dispatcher: routes each decoded event to every consumer channel
//! registered for its topic.
//!
//! The dispatcher holds only a sending handle per consumer; it never keeps a
//! consumer alive. When a send fails because the receiver was dropped, the
//! consumer is marked closed and the session carries on for the remaining
//! consumers; only when the last consumer is gone does the dispatcher ask for
//! the connection to be closed. A decode failure changes nothing: the frame
//! is dropped and the receive loop continues.

use vstd::prelude::*;

use crate::codec::{byte_seqs, decode, DecodeError, spec_decode};
use crate::model::{
    EventModel, KlineData, OrderBookLevel, TradeData, WalletAccountData, WebsocketEvents,
    klines_model, levels_model, trades_model, wallet_accounts_model,
};

verus! {

#[verifier::external_type_specification]
#[verifier::external_body]
#[verifier::reject_recursive_types(T)]
pub struct ExSender<T>(std::sync::mpsc::Sender<T>);

/// Relies on `std::sync::mpsc::Sender::send`: queues the value for the
/// receiver in arrival order and returns `Err` exactly when the receiver has
/// been dropped. Whether the receiver is still there is outside state, so
/// nothing is promised of the outcome.
#[verifier::external_body]
fn channel_send(tx: &std::sync::mpsc::Sender<WebsocketEvents>, ev: WebsocketEvents) -> (r: bool) {
    tx.send(ev).is_ok()
}

fn copy_bytes(v: &Vec<u8>) -> (r: Vec<u8>)
    ensures
        r@ == v@,
{
    vstd::slice::slice_to_vec(v.as_slice())
}

fn copy_levels(ls: &Vec<OrderBookLevel>) -> (r: Vec<OrderBookLevel>)
    ensures
        levels_model(r@) == levels_model(ls@),
{
    let mut out: Vec<OrderBookLevel> = Vec::new();
    let mut i: usize = 0;
    while i < ls.len()
        invariant
            i <= ls@.len(),
            out@.len() == i,
            forall|j: int| 0 <= j < i ==> out@[j].model() == ls@[j].model(),
        decreases ls@.len() - i,
    {
        out.push(
            OrderBookLevel { price: copy_bytes(&ls[i].price), qty: copy_bytes(&ls[i].qty) },
        );
        i = i + 1;
    }
    proof {
        assert(levels_model(out@) =~= levels_model(ls@));
    }
    out
}

fn copy_trades(ts: &Vec<TradeData>) -> (r: Vec<TradeData>)
    ensures
        trades_model(r@) == trades_model(ts@),
{
    let mut out: Vec<TradeData> = Vec::new();
    let mut i: usize = 0;
    while i < ts.len()
        invariant
            i <= ts@.len(),
            out@.len() == i,
            forall|j: int| 0 <= j < i ==> out@[j].model() == ts@[j].model(),
        decreases ts@.len() - i,
    {
        out.push(
            TradeData {
                timestamp: ts[i].timestamp,
                symbol: copy_bytes(&ts[i].symbol),
                side: copy_bytes(&ts[i].side),
                volume: copy_bytes(&ts[i].volume),
                price: copy_bytes(&ts[i].price),
            },
        );
        i = i + 1;
    }
    proof {
        assert(trades_model(out@) =~= trades_model(ts@));
    }
    out
}

fn copy_klines(ks: &Vec<KlineData>) -> (r: Vec<KlineData>)
    ensures
        klines_model(r@) == klines_model(ks@),
{
    let mut out: Vec<KlineData> = Vec::new();
    let mut i: usize = 0;
    while i < ks.len()
        invariant
            i <= ks@.len(),
            out@.len() == i,
            forall|j: int| 0 <= j < i ==> out@[j].model() == ks@[j].model(),
        decreases ks@.len() - i,
    {
        out.push(
            KlineData {
                start: ks[i].start,
                end: ks[i].end,
                interval: copy_bytes(&ks[i].interval),
                open: copy_bytes(&ks[i].open),
                close: copy_bytes(&ks[i].close),
                high: copy_bytes(&ks[i].high),
                low: copy_bytes(&ks[i].low),
                volume: copy_bytes(&ks[i].volume),
                confirm: ks[i].confirm,
                timestamp: ks[i].timestamp,
            },
        );
        i = i + 1;
    }
    proof {
        assert(klines_model(out@) =~= klines_model(ks@));
    }
    out
}

fn copy_wallet_accounts(ws: &Vec<WalletAccountData>) -> (r: Vec<WalletAccountData>)
    ensures
        wallet_accounts_model(r@) == wallet_accounts_model(ws@),
{
    let mut out: Vec<WalletAccountData> = Vec::new();
    let mut i: usize = 0;
    while i < ws.len()
        invariant
            i <= ws@.len(),
            out@.len() == i,
            forall|j: int| 0 <= j < i ==> out@[j].model() == ws@[j].model(),
        decreases ws@.len() - i,
    {
        out.push(
            WalletAccountData {
                account_type: copy_bytes(&ws[i].account_type),
                total_equity: copy_bytes(&ws[i].total_equity),
            },
        );
        i = i + 1;
    }
    proof {
        assert(wallet_accounts_model(out@) =~= wallet_accounts_model(ws@));
    }
    out
}

/// A deep copy of an event, used to fan one decoded event out to several
/// consumer channels.
pub fn copy_event(ev: &WebsocketEvents) -> (r: WebsocketEvents)
    ensures
        r.model() == ev.model(),
{
    match ev {
        WebsocketEvents::TradeEvent(u) => WebsocketEvents::TradeEvent(
            crate::model::TradeUpdate {
                topic: copy_bytes(&u.topic),
                ts: u.ts,
                data: copy_trades(&u.data),
            },
        ),
        WebsocketEvents::OrderBookEvent(u) => WebsocketEvents::OrderBookEvent(
            crate::model::OrderBookUpdate {
                topic: copy_bytes(&u.topic),
                event_type: copy_bytes(&u.event_type),
                ts: u.ts,
                data: crate::model::OrderBookData {
                    symbol: copy_bytes(&u.data.symbol),
                    bids: copy_levels(&u.data.bids),
                    asks: copy_levels(&u.data.asks),
                    update_id: u.data.update_id,
                    sequence: u.data.sequence,
                },
            },
        ),
        WebsocketEvents::TickerEvent(u) => WebsocketEvents::TickerEvent(
            crate::model::TickerUpdate {
                topic: copy_bytes(&u.topic),
                ts: u.ts,
                data: match &u.data {
                    crate::model::Tickers::Linear(t) => crate::model::Tickers::Linear(
                        crate::model::LinearTickerData {
                            symbol: copy_bytes(&t.symbol),
                            last_price: copy_bytes(&t.last_price),
                            mark_price: copy_bytes(&t.mark_price),
                            tick_direction: copy_bytes(&t.tick_direction),
                        },
                    ),
                    crate::model::Tickers::Spot(t) => crate::model::Tickers::Spot(
                        crate::model::SpotTickerData {
                            symbol: copy_bytes(&t.symbol),
                            last_price: copy_bytes(&t.last_price),
                            volume_24h: copy_bytes(&t.volume_24h),
                        },
                    ),
                },
            },
        ),
        WebsocketEvents::KlineEvent(u) => WebsocketEvents::KlineEvent(
            crate::model::KlineUpdate {
                topic: copy_bytes(&u.topic),
                ts: u.ts,
                data: copy_klines(&u.data),
            },
        ),
        WebsocketEvents::LiquidationEvent(u) => WebsocketEvents::LiquidationEvent(
            crate::model::LiquidationUpdate {
                topic: copy_bytes(&u.topic),
                ts: u.ts,
                data: crate::model::LiquidationData {
                    updated_time: u.data.updated_time,
                    symbol: copy_bytes(&u.data.symbol),
                    side: copy_bytes(&u.data.side),
                    size: copy_bytes(&u.data.size),
                    price: copy_bytes(&u.data.price),
                },
            },
        ),
        WebsocketEvents::WalletEvent(u) => WebsocketEvents::WalletEvent(
            crate::model::WalletUpdate {
                topic: copy_bytes(&u.topic),
                creation_time: u.creation_time,
                data: copy_wallet_accounts(&u.data),
            },
        ),
        WebsocketEvents::PongEvent(p) => WebsocketEvents::PongEvent(
            crate::model::OpResponse { op: copy_bytes(&p.op), success: p.success },
        ),
        WebsocketEvents::UnknownEvent(topic) => WebsocketEvents::UnknownEvent(copy_bytes(topic)),
    }
}

/// The topic an event is routed by; control acknowledgements have none and
/// are consumed by the session itself.
pub open spec fn spec_event_topic(m: EventModel) -> Option<Seq<u8>> {
    match m {
        EventModel::Trade(u) => Some(u.topic),
        EventModel::OrderBook(u) => Some(u.topic),
        EventModel::Ticker(u) => Some(u.topic),
        EventModel::Kline(u) => Some(u.topic),
        EventModel::Liquidation(u) => Some(u.topic),
        EventModel::Wallet(u) => Some(u.topic),
        EventModel::Pong(_) => None,
        EventModel::Unknown(topic) => Some(topic),
    }
}

/// The routing topic of a decoded event.
pub fn event_topic<'a>(ev: &'a WebsocketEvents) -> (r: Option<&'a Vec<u8>>)
    ensures
        (match (r, spec_event_topic(ev.model())) {
            (Some(t), Some(m)) => t@ == m,
            (None, None) => true,
            _ => false,
        }),
{
    match ev {
        WebsocketEvents::TradeEvent(u) => Some(&u.topic),
        WebsocketEvents::OrderBookEvent(u) => Some(&u.topic),
        WebsocketEvents::TickerEvent(u) => Some(&u.topic),
        WebsocketEvents::KlineEvent(u) => Some(&u.topic),
        WebsocketEvents::LiquidationEvent(u) => Some(&u.topic),
        WebsocketEvents::WalletEvent(u) => Some(&u.topic),
        WebsocketEvents::PongEvent(_) => None,
        WebsocketEvents::UnknownEvent(topic) => Some(topic),
    }
}

/// Whether a topic list contains `topic`.
fn topics_contain(topics: &Vec<Vec<u8>>, topic: &[u8]) -> (r: bool)
    ensures
        r == byte_seqs(topics@).contains(topic@),
{
    let mut k: usize = 0;
    while k < topics.len()
        invariant
            k <= topics@.len(),
            forall|j: int| 0 <= j < k ==> byte_seqs(topics@)[j] != topic@,
        decreases topics@.len() - k,
    {
        if crate::bytes_eq(topics[k].as_slice(), topic) {
            proof {
                assert(byte_seqs(topics@)[k as int] == topic@);
            }
            return true;
        }
        k = k + 1;
    }
    proof {
        if byte_seqs(topics@).contains(topic@) {
            let j = choose|j: int|
                0 <= j < byte_seqs(topics@).len() && byte_seqs(topics@)[j] == topic@;
            assert(byte_seqs(topics@)[j] != topic@);
        }
    }
    false
}

/// One consumer: the topics it asked for, its channel handle, whether the
/// channel is still believed open, and the ghost log of everything delivered
/// to it, in order.
pub struct Consumer {
    topics: Vec<Vec<u8>>,
    sender: std::sync::mpsc::Sender<WebsocketEvents>,
    open: bool,
    received: Ghost<Seq<EventModel>>,
}

impl Consumer {
    /// The topics this consumer asked for.
    pub closed spec fn topics_view(&self) -> Seq<Seq<u8>> {
        byte_seqs(self.topics@)
    }

    /// Whether the channel is still believed open.
    pub closed spec fn is_open(&self) -> bool {
        self.open
    }

    /// Everything delivered to this consumer, in delivery order.
    pub closed spec fn log(&self) -> Seq<EventModel> {
        self.received@
    }
}

/// Routes decoded events to the consumers registered for their topics.
pub struct Dispatcher {
    consumers: Vec<Consumer>,
}

/// How delivery of one event for `topic` changes the consumers: topics never
/// change, nothing is delivered to a consumer that did not ask for the topic,
/// an open matching consumer either gets the event appended to its log or is
/// found closed, and no consumer reopens.
pub open spec fn delivered_to(
    before: Seq<Consumer>,
    after: Seq<Consumer>,
    topic: Seq<u8>,
    m: EventModel,
) -> bool {
    &&& after.len() == before.len()
    &&& forall|i: int|
        #![trigger after[i]]
        0 <= i < before.len() ==> {
            let c0 = before[i];
            let c1 = after[i];
            &&& c1.topics_view() == c0.topics_view()
            &&& (c1.is_open() ==> c0.is_open())
            &&& (!(c0.is_open() && c0.topics_view().contains(topic)) ==> c1 == c0)
            &&& (c0.is_open() && c0.topics_view().contains(topic) ==> (if c1.is_open() {
                c1.log() == c0.log().push(m)
            } else {
                c1.log() == c0.log()
            }))
        }
}

impl Dispatcher {
    pub closed spec fn consumers_view(&self) -> Seq<Consumer> {
        self.consumers@
    }

    /// Some consumer channel is still believed open.
    pub open spec fn any_open(&self) -> bool {
        exists|i: int|
            0 <= i < self.consumers_view().len() && #[trigger] self.consumers_view()[i].is_open()
    }

    /// A dispatcher with no consumers.
    pub fn new() -> (r: Dispatcher)
        ensures
            r.consumers_view().len() == 0,
    {
        Dispatcher { consumers: Vec::new() }
    }

    /// Registers a consumer channel for a list of topics.
    pub fn add_consumer(
        &mut self,
        topics: Vec<Vec<u8>>,
        sender: std::sync::mpsc::Sender<WebsocketEvents>,
    )
        ensures
            final(self).consumers_view().len() == old(self).consumers_view().len() + 1,
            forall|i: int|
                0 <= i < old(self).consumers_view().len() ==> final(self).consumers_view()[i]
                    == old(self).consumers_view()[i],
            final(self).consumers_view().last().topics_view() == byte_seqs(topics@),
            final(self).consumers_view().last().is_open(),
            final(self).consumers_view().last().log() == Seq::<EventModel>::empty(),
    {
        self.consumers.push(
            Consumer { topics, sender, open: true, received: Ghost(Seq::empty()) },
        );
    }

    /// Number of consumers still believed open.
    pub fn open_count(&self) -> (r: usize)
        ensures
            (r > 0) == self.any_open(),
    {
        let mut n: usize = 0;
        let mut i: usize = 0;
        while i < self.consumers.len()
            invariant
                i <= self.consumers_view().len(),
                n <= i,
                (n > 0) == exists|j: int|
                    0 <= j < i && #[trigger] self.consumers_view()[j].is_open(),
            decreases self.consumers.len() - i,
        {
            if self.consumers[i].open {
                n = n + 1;
                proof {
                    assert(self.consumers_view()[i as int].is_open());
                }
            }
            i = i + 1;
        }
        n
    }

    /// Delivers one decoded event to every open consumer registered for
    /// `topic`. A consumer whose receiver was dropped is marked closed and
    /// delivery to the others continues. Returns true exactly when no open
    /// consumer remains — only then may the session close the connection.
    pub fn deliver(&mut self, topic: &[u8], ev: &WebsocketEvents) -> (close: bool)
        ensures
            delivered_to(
                old(self).consumers_view(),
                final(self).consumers_view(),
                topic@,
                ev.model(),
            ),
            close == !final(self).any_open(),
    {
        let ghost before = self.consumers@;
        let mut i: usize = 0;
        while i < self.consumers.len()
            invariant
                i <= self.consumers_view().len(),
                self.consumers_view().len() == before.len(),
                forall|j: int|
                    #![trigger self.consumers_view()[j]]
                    0 <= j < before.len() ==> {
                        let c0 = before[j];
                        let c1 = self.consumers_view()[j];
                        &&& c1.topics_view() == c0.topics_view()
                        &&& (c1.is_open() ==> c0.is_open())
                        &&& (j >= i ==> c1 == c0)
                        &&& (j < i && !(c0.is_open() && c0.topics_view().contains(topic@))
                            ==> c1 == c0)
                        &&& (j < i && c0.is_open() && c0.topics_view().contains(topic@) ==> (
                        if c1.is_open() {
                            c1.log() == c0.log().push(ev.model())
                        } else {
                            c1.log() == c0.log()
                        }))
                    },
            decreases self.consumers.len() - i,
        {
            let matching = self.consumers[i].open && topics_contain(
                &self.consumers[i].topics,
                topic,
            );
            if matching {
                let payload = copy_event(ev);
                let delivered = channel_send(&self.consumers[i].sender, payload);
                if delivered {
                    let ghost new_log = self.consumers@[i as int].received@.push(ev.model());
                    self.consumers[i].received = Ghost(new_log);
                } else {
                    self.consumers[i].open = false;
                }
            }
            i = i + 1;
        }
        let open_now = self.open_count();
        open_now == 0
    }

    /// Decodes one raw frame and routes the event to the consumers registered
    /// for its topic. A decode failure changes nothing — the frame is dropped
    /// and the receive loop continues — and an acknowledgement is routed to no
    /// consumer. The `Ok` value says whether the last consumer is gone and
    /// the connection may be closed.
    pub fn dispatch_frame(&mut self, frame: &[u8]) -> (r: Result<bool, DecodeError>)
        ensures
            (match spec_decode(frame@) {
                Err(e) => r == Err::<bool, DecodeError>(e) && final(self).consumers_view()
                    == old(self).consumers_view(),
                Ok(m) => match spec_event_topic(m) {
                    None => r == Ok::<bool, DecodeError>(!final(self).any_open())
                        && final(self).consumers_view() == old(self).consumers_view(),
                    Some(t) => r == Ok::<bool, DecodeError>(!final(self).any_open())
                        && delivered_to(
                        old(self).consumers_view(),
                        final(self).consumers_view(),
                        t,
                        m,
                    ),
                },
            }),
    {
        match decode(frame) {
            Err(e) => Err(e),
            Ok(ev) => {
                match event_topic(&ev) {
                    None => {
                        let n = self.open_count();
                        Ok(n == 0)
                    },
                    Some(t) => {
                        let topic = vstd::slice::slice_to_vec(t.as_slice());
                        let close = self.deliver(topic.as_slice(), &ev);
                        Ok(close)
                    },
                }
            },
        }
    }
}

} // verus!
