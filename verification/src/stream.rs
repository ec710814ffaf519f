//! The public streaming API surface: convenience entry points that configure
//! a stream session for a specific topic shape.
//!
//! Each entry point builds the exact topic strings for its channel kind,
//! records them in a fresh session's registry, and hands the session back.
//! The caller's driver owns the transport: it performs the actions the
//! session asks for and feeds lifecycle events back, so the session itself
//! stays pure and fully checked. Failures after a session is handed out are
//! never returned to the caller — the session recovers by reconnecting — and
//! only configuration errors (missing credentials for a private stream) are
//! reported synchronously here.

use vstd::prelude::*;
use vstd::string::StringSliceAdditionalSpecFns;

use crate::codec::{byte_seqs, encode_auth, encode_ping, spec_auth_frame, spec_dec_u64,
    spec_ping_frame, push_bytes, u64_to_dec};
use crate::model::{Category, Subscription};
use crate::registry::spec_add_all;
use crate::session::{ConnectionState, StreamSession};

verus! {

/// First backoff delay after a failed attempt, in milliseconds.
pub const BASE_DELAY_MS: u64 = 500;

/// Upper bound on the backoff delay, in milliseconds.
pub const MAX_DELAY_MS: u64 = 30000;

/// A configuration error reported synchronously when a streaming call is
/// made; everything after that point is recovered internally.
#[derive(Clone, Copy, Debug, PartialEq, Eq, Structural)]
pub enum StreamError {
    /// A private stream was requested without api key and secret.
    MissingCredentials,
}

/// The streaming client: holds the optional signing credentials and spawns
/// configured sessions.
pub struct Stream {
    pub api_key: Option<String>,
    pub secret: Option<String>,
}

/// The topic string for an orderbook subscription at a given depth.
pub open spec fn spec_orderbook_topic(depth: u64, sym: Seq<char>) -> Seq<u8> {
    "orderbook.".spec_bytes() + spec_dec_u64(depth as nat) + ".".spec_bytes()
        + vstd::utf8::encode_utf8(sym)
}

/// The topic string for a public trade subscription.
pub open spec fn spec_trade_topic(sym: Seq<char>) -> Seq<u8> {
    "publicTrade.".spec_bytes() + vstd::utf8::encode_utf8(sym)
}

/// The topic string for a ticker subscription.
pub open spec fn spec_ticker_topic(sym: Seq<char>) -> Seq<u8> {
    "tickers.".spec_bytes() + vstd::utf8::encode_utf8(sym)
}

/// The topic string for a candlestick subscription with an interval.
pub open spec fn spec_kline_topic(interval: Seq<char>, sym: Seq<char>) -> Seq<u8> {
    "kline.".spec_bytes() + vstd::utf8::encode_utf8(interval) + ".".spec_bytes()
        + vstd::utf8::encode_utf8(sym)
}

/// The topic string for the private wallet stream.
pub open spec fn spec_wallet_topic() -> Seq<u8> {
    "wallet".spec_bytes()
}

fn orderbook_topic(depth: u64, symbol: &str) -> (r: Vec<u8>)
    ensures
        r@ == spec_orderbook_topic(depth, symbol@),
{
    let mut out: Vec<u8> = Vec::new();
    push_bytes(&mut out, "orderbook.".as_bytes());
    let digits = u64_to_dec(depth);
    push_bytes(&mut out, digits.as_slice());
    push_bytes(&mut out, ".".as_bytes());
    push_bytes(&mut out, symbol.as_bytes());
    proof {
        assert(out@ =~= spec_orderbook_topic(depth, symbol@));
    }
    out
}

fn prefixed_topic(prefix: &str, symbol: &str) -> (r: Vec<u8>)
    ensures
        r@ == prefix.spec_bytes() + symbol.spec_bytes(),
{
    let mut out: Vec<u8> = Vec::new();
    push_bytes(&mut out, prefix.as_bytes());
    push_bytes(&mut out, symbol.as_bytes());
    out
}

fn kline_topic(interval: &str, symbol: &str) -> (r: Vec<u8>)
    ensures
        r@ == spec_kline_topic(interval@, symbol@),
{
    let mut out: Vec<u8> = Vec::new();
    push_bytes(&mut out, "kline.".as_bytes());
    push_bytes(&mut out, interval.as_bytes());
    push_bytes(&mut out, ".".as_bytes());
    push_bytes(&mut out, symbol.as_bytes());
    proof {
        assert(out@ =~= spec_kline_topic(interval@, symbol@));
    }
    out
}

/// The orderbook topics for a depth-per-symbol request list.
pub open spec fn spec_orderbook_topics(rs: Seq<(u64, String)>) -> Seq<Seq<u8>> {
    Seq::new(rs.len(), |i: int| spec_orderbook_topic(rs[i].0, rs[i].1@))
}

/// The trade topics for a symbol list.
pub open spec fn spec_trade_topics(rs: Seq<String>) -> Seq<Seq<u8>> {
    Seq::new(rs.len(), |i: int| spec_trade_topic(rs[i]@))
}

/// The ticker topics for a symbol list.
pub open spec fn spec_ticker_topics(rs: Seq<String>) -> Seq<Seq<u8>> {
    Seq::new(rs.len(), |i: int| spec_ticker_topic(rs[i]@))
}

/// The candlestick topics for an interval-symbol request list.
pub open spec fn spec_kline_topics(rs: Seq<(String, String)>) -> Seq<Seq<u8>> {
    Seq::new(rs.len(), |i: int| spec_kline_topic(rs[i].0@, rs[i].1@))
}

/// The raw topic argument strings of a subscription request.
pub open spec fn spec_subscription_topics(args: Seq<String>) -> Seq<Seq<u8>> {
    Seq::new(args.len(), |i: int| vstd::utf8::encode_utf8(args[i]@))
}

impl Stream {
    /// A streaming client; the credentials are read-only configuration,
    /// needed only for private streams.
    pub fn new(api_key: Option<String>, secret: Option<String>) -> (r: Stream)
        ensures
            r.api_key == api_key,
            r.secret == secret,
    {
        Stream { api_key, secret }
    }

    /// A fresh public session whose registry holds exactly `topics`.
    fn public_session(&self, topics: Vec<Vec<u8>>) -> (r: StreamSession)
        ensures
            r.wf(),
            r.state == ConnectionState::Disconnected,
            !r.private_stream,
            r.registry@ == spec_add_all(Seq::<Seq<u8>>::empty(), byte_seqs(topics@)),
    {
        let mut session = StreamSession::new(false, BASE_DELAY_MS, MAX_DELAY_MS);
        session.registry.add_all(&topics);
        session
    }

    /// Configures a session for a caller-assembled subscription: the request's
    /// raw topic arguments are recorded as they stand.
    pub fn ws_subscribe(&self, request: Subscription, _category: Category) -> (r: StreamSession)
        ensures
            r.wf(),
            r.state == ConnectionState::Disconnected,
            !r.private_stream,
            r.registry@ == spec_add_all(
                Seq::<Seq<u8>>::empty(),
                spec_subscription_topics(request.args@),
            ),
    {
        let mut topics: Vec<Vec<u8>> = Vec::new();
        let ghost wanted = spec_subscription_topics(request.args@);
        let mut i: usize = 0;
        proof {
            assert(byte_seqs(topics@) =~= wanted.take(0));
        }
        while i < request.args.len()
            invariant
                i <= request.args@.len(),
                wanted == spec_subscription_topics(request.args@),
                byte_seqs(topics@) == wanted.take(i as int),
            decreases request.args@.len() - i,
        {
            let ghost prefix = byte_seqs(topics@);
            let t = request.args[i].as_str().as_bytes_vec();
            topics.push(t);
            proof {
                assert(byte_seqs(topics@) =~= prefix.push(wanted[i as int]));
                assert(prefix.push(wanted[i as int]) =~= wanted.take(i + 1));
            }
            i = i + 1;
        }
        proof {
            assert(wanted.take(wanted.len() as int) =~= wanted);
        }
        self.public_session(topics)
    }

    /// Configures a session streaming orderbooks for a depth-per-symbol list.
    pub fn ws_orderbook(&self, request: Vec<(u64, String)>, _category: Category) -> (r:
        StreamSession)
        ensures
            r.wf(),
            r.state == ConnectionState::Disconnected,
            !r.private_stream,
            r.registry@ == spec_add_all(
                Seq::<Seq<u8>>::empty(),
                spec_orderbook_topics(request@),
            ),
    {
        let ghost wanted = spec_orderbook_topics(request@);
        let mut topics: Vec<Vec<u8>> = Vec::new();
        let mut i: usize = 0;
        proof {
            assert(byte_seqs(topics@) =~= wanted.take(0));
        }
        while i < request.len()
            invariant
                i <= request@.len(),
                wanted == spec_orderbook_topics(request@),
                byte_seqs(topics@) == wanted.take(i as int),
            decreases request@.len() - i,
        {
            let ghost prefix = byte_seqs(topics@);
            let t = orderbook_topic(request[i].0, request[i].1.as_str());
            topics.push(t);
            proof {
                assert(byte_seqs(topics@) =~= prefix.push(wanted[i as int]));
                assert(prefix.push(wanted[i as int]) =~= wanted.take(i + 1));
            }
            i = i + 1;
        }
        proof {
            assert(wanted.take(wanted.len() as int) =~= wanted);
        }
        self.public_session(topics)
    }

    /// Configures a session streaming public trades for a symbol list.
    pub fn ws_trades(&self, request: Vec<String>, _category: Category) -> (r: StreamSession)
        ensures
            r.wf(),
            r.state == ConnectionState::Disconnected,
            !r.private_stream,
            r.registry@ == spec_add_all(Seq::<Seq<u8>>::empty(), spec_trade_topics(request@)),
    {
        let ghost wanted = spec_trade_topics(request@);
        let mut topics: Vec<Vec<u8>> = Vec::new();
        let mut i: usize = 0;
        proof {
            assert(byte_seqs(topics@) =~= wanted.take(0));
        }
        while i < request.len()
            invariant
                i <= request@.len(),
                wanted == spec_trade_topics(request@),
                byte_seqs(topics@) == wanted.take(i as int),
            decreases request@.len() - i,
        {
            let ghost prefix = byte_seqs(topics@);
            let t = prefixed_topic("publicTrade.", request[i].as_str());
            topics.push(t);
            proof {
                assert(byte_seqs(topics@) =~= prefix.push(wanted[i as int]));
                assert(prefix.push(wanted[i as int]) =~= wanted.take(i + 1));
            }
            i = i + 1;
        }
        proof {
            assert(wanted.take(wanted.len() as int) =~= wanted);
        }
        self.public_session(topics)
    }

    /// Configures a session streaming tickers for a symbol list.
    pub fn ws_tickers(&self, request: Vec<String>, _category: Category) -> (r: StreamSession)
        ensures
            r.wf(),
            r.state == ConnectionState::Disconnected,
            !r.private_stream,
            r.registry@ == spec_add_all(Seq::<Seq<u8>>::empty(), spec_ticker_topics(request@)),
    {
        let ghost wanted = spec_ticker_topics(request@);
        let mut topics: Vec<Vec<u8>> = Vec::new();
        let mut i: usize = 0;
        proof {
            assert(byte_seqs(topics@) =~= wanted.take(0));
        }
        while i < request.len()
            invariant
                i <= request@.len(),
                wanted == spec_ticker_topics(request@),
                byte_seqs(topics@) == wanted.take(i as int),
            decreases request@.len() - i,
        {
            let ghost prefix = byte_seqs(topics@);
            let t = prefixed_topic("tickers.", request[i].as_str());
            topics.push(t);
            proof {
                assert(byte_seqs(topics@) =~= prefix.push(wanted[i as int]));
                assert(prefix.push(wanted[i as int]) =~= wanted.take(i + 1));
            }
            i = i + 1;
        }
        proof {
            assert(wanted.take(wanted.len() as int) =~= wanted);
        }
        self.public_session(topics)
    }

    /// Configures a session streaming candlesticks for an interval-symbol
    /// list.
    pub fn ws_klines(&self, request: Vec<(String, String)>, _category: Category) -> (r:
        StreamSession)
        ensures
            r.wf(),
            r.state == ConnectionState::Disconnected,
            !r.private_stream,
            r.registry@ == spec_add_all(Seq::<Seq<u8>>::empty(), spec_kline_topics(request@)),
    {
        let ghost wanted = spec_kline_topics(request@);
        let mut topics: Vec<Vec<u8>> = Vec::new();
        let mut i: usize = 0;
        proof {
            assert(byte_seqs(topics@) =~= wanted.take(0));
        }
        while i < request.len()
            invariant
                i <= request@.len(),
                wanted == spec_kline_topics(request@),
                byte_seqs(topics@) == wanted.take(i as int),
            decreases request@.len() - i,
        {
            let ghost prefix = byte_seqs(topics@);
            let t = kline_topic(request[i].0.as_str(), request[i].1.as_str());
            topics.push(t);
            proof {
                assert(byte_seqs(topics@) =~= prefix.push(wanted[i as int]));
                assert(prefix.push(wanted[i as int]) =~= wanted.take(i + 1));
            }
            i = i + 1;
        }
        proof {
            assert(wanted.take(wanted.len() as int) =~= wanted);
        }
        self.public_session(topics)
    }

    /// Configures the private wallet stream. Fails synchronously — the one
    /// kind of error a streaming call reports — when credentials are missing.
    pub fn ws_wallet(&self) -> (r: Result<StreamSession, StreamError>)
        ensures
            (match r {
                Ok(s) => {
                    &&& self.api_key is Some
                    &&& self.secret is Some
                    &&& s.wf()
                    &&& s.state == ConnectionState::Disconnected
                    &&& s.private_stream
                    &&& s.registry@ == seq![spec_wallet_topic()]
                },
                Err(e) => e == StreamError::MissingCredentials && (self.api_key is None
                    || self.secret is None),
            }),
    {
        if self.api_key.is_none() || self.secret.is_none() {
            return Err(StreamError::MissingCredentials);
        }
        let mut session = StreamSession::new(true, BASE_DELAY_MS, MAX_DELAY_MS);
        let mut topic: Vec<u8> = Vec::new();
        push_bytes(&mut topic, "wallet".as_bytes());
        session.registry.add(topic);
        proof {
            assert(session.registry@ =~= seq![spec_wallet_topic()]);
        }
        Ok(session)
    }

    /// The keep-alive ping frame. The driver sends it and, with
    /// `wait_for_reply`, judges the reply via `StreamSession::ping_outcome`.
    pub fn ws_ping(&self) -> (r: Vec<u8>)
        ensures
            r@ == spec_ping_frame(),
    {
        encode_ping()
    }

    /// The private-stream auth frame for a signature computed by the signing
    /// collaborator; `None` without an api key.
    pub fn auth_frame(&self, expires: u64, signature: &[u8]) -> (r: Option<Vec<u8>>)
        ensures
            (match (r, self.api_key) {
                (Some(f), Some(key)) => f@ == spec_auth_frame(
                    vstd::utf8::encode_utf8(key@),
                    expires,
                    signature@,
                ),
                (None, None) => true,
                _ => false,
            }),
    {
        match &self.api_key {
            Some(key) => Some(encode_auth(key.as_str().as_bytes(), expires, signature)),
            None => None,
        }
    }
}

} // verus!
