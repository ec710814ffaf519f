//! The stream session: the state machine that drives one connection's
//! lifecycle — connect, authenticate (private streams), subscribe, live
//! receive, staleness detection, and reconnect with bounded exponential
//! backoff.
//!
//! The machine is pure: callers feed it lifecycle events and perform the
//! returned actions (connect, send a frame, wait, close). Every transition is
//! given by `spec_step`, and `handle` is proved to follow it exactly. The
//! session retries indefinitely — there is no terminal state reachable from
//! events alone — matching the contract that a market-data stream keeps
//! streaming until the caller cancels it.

use vstd::prelude::*;

use crate::codec::{byte_seqs, encode_subscribe, spec_subscribe_frame};
use crate::registry::SubscriptionRegistry;

verus! {

/// Lifecycle state of one connection. Owned exclusively by the session;
/// transitions are serialized.
#[derive(Clone, Copy, Debug, PartialEq, Eq, Structural)]
pub enum ConnectionState {
    Disconnected,
    Connecting,
    Authenticating,
    Subscribing,
    Live,
    Reconnecting,
}

/// A lifecycle event fed to the session by its driver.
#[derive(Clone, Copy, Debug, PartialEq, Eq, Structural)]
pub enum SessionEvent {
    /// The caller started the session.
    Started,
    /// The transport finished connecting.
    ConnectSucceeded,
    /// The transport failed to connect.
    ConnectFailed,
    /// The auth acknowledgement arrived in time.
    AuthSucceeded,
    /// The auth request was rejected or timed out.
    AuthFailed,
    /// The subscribe acknowledgement arrived, or the grace period elapsed;
    /// the exchange does not acknowledge every subscription kind.
    SubscribeAcked,
    /// A pong or data frame arrived, resetting the staleness timer.
    PongReceived,
    /// No frame or pong arrived within the staleness window.
    StalenessTimeout,
    /// A transport send or receive failed.
    TransportError,
    /// The reconnect backoff delay elapsed.
    BackoffElapsed,
}

/// What the driver must do after a transition.
#[derive(Clone, Copy, Debug, PartialEq, Eq, Structural)]
pub enum SessionAction {
    /// Nothing; keep waiting for events.
    Idle,
    /// Open a new transport connection.
    StartConnect,
    /// Send the auth control frame.
    SendAuth,
    /// Send the subscribe control frame rebuilt from the registry snapshot.
    SendSubscribe,
    /// Sleep for the given backoff delay, then feed `BackoffElapsed`.
    WaitBackoff(u64),
}

/// The session: connection state, backoff bookkeeping, and the registry of
/// topics to (re)subscribe.
pub struct StreamSession {
    pub state: ConnectionState,
    /// Whether this session must authenticate before subscribing.
    pub private_stream: bool,
    /// First backoff delay after a failure, in milliseconds.
    pub base_delay_ms: u64,
    /// Upper bound on the backoff delay, in milliseconds.
    pub max_delay_ms: u64,
    /// The next backoff delay, in milliseconds.
    pub delay_ms: u64,
    /// Consecutive failures since the last time the session went live.
    pub attempts: u64,
    pub registry: SubscriptionRegistry,
}

/// The doubled, capped backoff delay.
pub open spec fn spec_bump_delay(delay: u64, max: u64) -> u64 {
    if 2 * delay <= max {
        (2 * delay) as u64
    } else {
        max
    }
}

/// The state machine: for every state and event, the next state and the
/// action the driver must perform. Events that do not apply to the current
/// state leave the session unchanged.
pub open spec fn spec_step(s: StreamSession, ev: SessionEvent) -> (StreamSession, SessionAction) {
    match (s.state, ev) {
        (ConnectionState::Disconnected, SessionEvent::Started) => (
            StreamSession { state: ConnectionState::Connecting, ..s },
            SessionAction::StartConnect,
        ),
        (ConnectionState::Connecting, SessionEvent::ConnectSucceeded) => {
            if s.private_stream {
                (
                    StreamSession { state: ConnectionState::Authenticating, ..s },
                    SessionAction::SendAuth,
                )
            } else {
                (
                    StreamSession { state: ConnectionState::Subscribing, ..s },
                    SessionAction::SendSubscribe,
                )
            }
        },
        (ConnectionState::Connecting, SessionEvent::ConnectFailed) => (
            StreamSession {
                state: ConnectionState::Reconnecting,
                delay_ms: spec_bump_delay(s.delay_ms, s.max_delay_ms),
                attempts: if s.attempts < u64::MAX {
                    (s.attempts + 1) as u64
                } else {
                    s.attempts
                },
                ..s
            },
            SessionAction::WaitBackoff(s.delay_ms),
        ),
        (ConnectionState::Authenticating, SessionEvent::AuthSucceeded) => (
            StreamSession { state: ConnectionState::Subscribing, ..s },
            SessionAction::SendSubscribe,
        ),
        (ConnectionState::Authenticating, SessionEvent::AuthFailed) => (
            StreamSession {
                state: ConnectionState::Reconnecting,
                delay_ms: spec_bump_delay(s.delay_ms, s.max_delay_ms),
                attempts: if s.attempts < u64::MAX {
                    (s.attempts + 1) as u64
                } else {
                    s.attempts
                },
                ..s
            },
            SessionAction::WaitBackoff(s.delay_ms),
        ),
        (ConnectionState::Subscribing, SessionEvent::SubscribeAcked) => (
            StreamSession {
                state: ConnectionState::Live,
                delay_ms: s.base_delay_ms,
                attempts: 0,
                ..s
            },
            SessionAction::Idle,
        ),
        (ConnectionState::Live, SessionEvent::StalenessTimeout) => (
            StreamSession {
                state: ConnectionState::Reconnecting,
                delay_ms: spec_bump_delay(s.delay_ms, s.max_delay_ms),
                ..s
            },
            SessionAction::WaitBackoff(s.delay_ms),
        ),
        (ConnectionState::Live, SessionEvent::TransportError) => (
            StreamSession {
                state: ConnectionState::Reconnecting,
                delay_ms: spec_bump_delay(s.delay_ms, s.max_delay_ms),
                ..s
            },
            SessionAction::WaitBackoff(s.delay_ms),
        ),
        (ConnectionState::Subscribing, SessionEvent::TransportError) => (
            StreamSession {
                state: ConnectionState::Reconnecting,
                delay_ms: spec_bump_delay(s.delay_ms, s.max_delay_ms),
                ..s
            },
            SessionAction::WaitBackoff(s.delay_ms),
        ),
        (ConnectionState::Reconnecting, SessionEvent::BackoffElapsed) => (
            StreamSession { state: ConnectionState::Connecting, ..s },
            SessionAction::StartConnect,
        ),
        _ => (s, SessionAction::Idle),
    }
}

impl StreamSession {
    /// Delay bookkeeping is inside its configured bounds and the registry is
    /// duplicate-free.
    pub open spec fn wf(&self) -> bool {
        &&& 0 < self.base_delay_ms <= self.delay_ms <= self.max_delay_ms
        &&& self.registry.wf()
    }

    /// A fresh session in `Disconnected`, with the given backoff policy.
    pub fn new(private_stream: bool, base_delay_ms: u64, max_delay_ms: u64) -> (r: StreamSession)
        requires
            0 < base_delay_ms <= max_delay_ms,
        ensures
            r.wf(),
            r.state == ConnectionState::Disconnected,
            r.private_stream == private_stream,
            r.base_delay_ms == base_delay_ms,
            r.max_delay_ms == max_delay_ms,
            r.delay_ms == base_delay_ms,
            r.attempts == 0,
            r.registry@ == Seq::<Seq<u8>>::empty(),
    {
        StreamSession {
            state: ConnectionState::Disconnected,
            private_stream,
            base_delay_ms,
            max_delay_ms,
            delay_ms: base_delay_ms,
            attempts: 0,
            registry: SubscriptionRegistry::new(),
        }
    }

    /// Feeds one lifecycle event; returns the action the driver must perform.
    /// Follows `spec_step` exactly.
    pub fn handle(&mut self, ev: SessionEvent) -> (r: SessionAction)
        ensures
            *final(self) == spec_step(*old(self), ev).0,
            r == spec_step(*old(self), ev).1,
            old(self).wf() ==> final(self).wf(),
    {
        let next_delay = if self.delay_ms <= self.max_delay_ms / 2 {
            2 * self.delay_ms
        } else {
            self.max_delay_ms
        };
        proof {
            if self.delay_ms <= self.max_delay_ms {
                assert(next_delay == spec_bump_delay(self.delay_ms, self.max_delay_ms));
            }
        }
        match (self.state, ev) {
            (ConnectionState::Disconnected, SessionEvent::Started) => {
                self.state = ConnectionState::Connecting;
                SessionAction::StartConnect
            },
            (ConnectionState::Connecting, SessionEvent::ConnectSucceeded) => {
                if self.private_stream {
                    self.state = ConnectionState::Authenticating;
                    SessionAction::SendAuth
                } else {
                    self.state = ConnectionState::Subscribing;
                    SessionAction::SendSubscribe
                }
            },
            (ConnectionState::Connecting, SessionEvent::ConnectFailed) => {
                let waited = self.delay_ms;
                self.state = ConnectionState::Reconnecting;
                self.delay_ms = self.bump_delay_checked(next_delay);
                if self.attempts < u64::MAX {
                    self.attempts = self.attempts + 1;
                }
                SessionAction::WaitBackoff(waited)
            },
            (ConnectionState::Authenticating, SessionEvent::AuthSucceeded) => {
                self.state = ConnectionState::Subscribing;
                SessionAction::SendSubscribe
            },
            (ConnectionState::Authenticating, SessionEvent::AuthFailed) => {
                let waited = self.delay_ms;
                self.state = ConnectionState::Reconnecting;
                self.delay_ms = self.bump_delay_checked(next_delay);
                if self.attempts < u64::MAX {
                    self.attempts = self.attempts + 1;
                }
                SessionAction::WaitBackoff(waited)
            },
            (ConnectionState::Subscribing, SessionEvent::SubscribeAcked) => {
                self.state = ConnectionState::Live;
                self.delay_ms = self.base_delay_ms;
                self.attempts = 0;
                SessionAction::Idle
            },
            (ConnectionState::Live, SessionEvent::StalenessTimeout) => {
                let waited = self.delay_ms;
                self.state = ConnectionState::Reconnecting;
                self.delay_ms = self.bump_delay_checked(next_delay);
                SessionAction::WaitBackoff(waited)
            },
            (ConnectionState::Live, SessionEvent::TransportError) => {
                let waited = self.delay_ms;
                self.state = ConnectionState::Reconnecting;
                self.delay_ms = self.bump_delay_checked(next_delay);
                SessionAction::WaitBackoff(waited)
            },
            (ConnectionState::Subscribing, SessionEvent::TransportError) => {
                let waited = self.delay_ms;
                self.state = ConnectionState::Reconnecting;
                self.delay_ms = self.bump_delay_checked(next_delay);
                SessionAction::WaitBackoff(waited)
            },
            (ConnectionState::Reconnecting, SessionEvent::BackoffElapsed) => {
                self.state = ConnectionState::Connecting;
                SessionAction::StartConnect
            },
            _ => SessionAction::Idle,
        }
    }

    /// The doubled, capped delay; a helper so `handle` matches `spec_bump_delay`
    /// even when the session is not well-formed.
    fn bump_delay_checked(&self, precomputed: u64) -> (r: u64)
        requires
            precomputed == (if 2 * self.delay_ms <= self.max_delay_ms {
                2 * self.delay_ms
            } else {
                self.max_delay_ms as int
            }),
        ensures
            r == spec_bump_delay(self.delay_ms, self.max_delay_ms),
    {
        precomputed
    }

    /// The subscribe frame rebuilt from the registry snapshot, sent on every
    /// `SendSubscribe` action.
    pub fn resubscribe_frame(&self) -> (r: Vec<u8>)
        ensures
            r@ == spec_subscribe_frame(self.registry@),
    {
        let snap = self.registry.snapshot();
        encode_subscribe(&snap)
    }

    /// The outcome of a keep-alive ping: when a reply was awaited and none
    /// arrived within the staleness window, the session reacts exactly as to
    /// a staleness timeout; otherwise nothing changes.
    pub fn ping_outcome(&mut self, wait_for_reply: bool, pong_received: bool) -> (r: SessionAction)
        ensures
            wait_for_reply && !pong_received ==> (*final(self) == spec_step(
                *old(self),
                SessionEvent::StalenessTimeout,
            ).0 && r == spec_step(*old(self), SessionEvent::StalenessTimeout).1),
            !(wait_for_reply && !pong_received) ==> (*final(self) == *old(self) && r
                == SessionAction::Idle),
            old(self).wf() ==> final(self).wf(),
    {
        if wait_for_reply && !pong_received {
            self.handle(SessionEvent::StalenessTimeout)
        } else {
            SessionAction::Idle
        }
    }
}

/// A staleness timeout in `Live` forces exactly one transition to
/// `Reconnecting`, with one backoff wait; a second timeout while already
/// `Reconnecting` does nothing — no tight reconnect loop.
pub proof fn lemma_staleness_reconnects_once(s: StreamSession)
    requires
        s.state == ConnectionState::Live,
    ensures
        spec_step(s, SessionEvent::StalenessTimeout).0.state == ConnectionState::Reconnecting,
        spec_step(s, SessionEvent::StalenessTimeout).1 == SessionAction::WaitBackoff(s.delay_ms),
        spec_step(spec_step(s, SessionEvent::StalenessTimeout).0, SessionEvent::StalenessTimeout).0
            == spec_step(s, SessionEvent::StalenessTimeout).0,
        spec_step(spec_step(s, SessionEvent::StalenessTimeout).0, SessionEvent::StalenessTimeout).1
            == SessionAction::Idle,
{
}

/// No step shortens the backoff delay, except the reset on going live; so
/// over any run of consecutive failures the waits are non-decreasing.
pub proof fn lemma_backoff_monotone(s: StreamSession, ev: SessionEvent)
    requires
        s.wf(),
    ensures
        spec_step(s, ev).0.wf(),
        spec_step(s, ev).0.state != ConnectionState::Live ==> spec_step(s, ev).0.delay_ms
            >= s.delay_ms,
{
}

/// Two consecutive connect failures wait for non-decreasing delays: the
/// backoff of the second attempt is at least that of the first.
pub proof fn lemma_retry_delays_non_decreasing(s: StreamSession)
    requires
        s.wf(),
        s.state == ConnectionState::Connecting,
    ensures
        ({
            let (s1, a1) = spec_step(s, SessionEvent::ConnectFailed);
            let (s2, a2) = spec_step(s1, SessionEvent::BackoffElapsed);
            let (s3, a3) = spec_step(s2, SessionEvent::ConnectFailed);
            &&& a1 == SessionAction::WaitBackoff(s.delay_ms)
            &&& a2 == SessionAction::StartConnect
            &&& a3 == SessionAction::WaitBackoff(s1.delay_ms)
            &&& s1.delay_ms >= s.delay_ms
            &&& s3.wf()
        }),
{
}

} // verus!
