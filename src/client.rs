//! Decisions of the reconnecting client: from its state and what just
//! happened to the next state and the next thing to do. The caller performs
//! each action and reports its outcome as the next event.
use vstd::prelude::*;
use crate::timer::{timer_start, timer_step, DoublingTimer, TimerModel};

verus! {

/// Attempts at the initial delay before the client's backoff doubles.
pub const RETRY_FLAT: u32 = 5;

/// The client's first reconnection delay, in milliseconds.
pub const RETRY_INIT_MS: u64 = 1000;

/// The client's longest reconnection delay, in milliseconds.
pub const RETRY_MAX_MS: u64 = 30000;

/// Where the client stands.
#[derive(Debug, PartialEq, Eq, Structural, Clone, Copy)]
pub enum LinkState {
    Disconnected,
    Connecting,
    Handshaking,
    Connected,
}

/// What just happened.
#[derive(Debug, PartialEq, Eq, Structural, Clone, Copy)]
pub enum LinkEvent {
    /// The client starts, or a backoff delay has passed.
    Retry,
    /// The transport connection is open.
    TransportOpened,
    /// Opening the transport failed.
    TransportFailed,
    /// The key exchange succeeded.
    HandshakeDone,
    /// The key exchange failed (timeout, changed identity, I/O, bad data).
    HandshakeFailed,
    /// A message arrived and was handed to the consumer.
    MessageReceived,
    /// Receiving failed; the connection is torn down.
    ReceiveFailed,
}

/// What to do next.
#[derive(Debug, PartialEq, Eq, Structural, Clone, Copy)]
pub enum LinkAction {
    /// Open a transport connection to the configured address.
    Connect,
    /// Run the client key exchange on the open connection.
    Handshake,
    /// Wait for the next message.
    Receive,
    /// Wait this many milliseconds, then report `Retry`.
    Sleep(u64),
}

/// One step of the client from `s` with backoff `t` on event `e`: the next
/// state, backoff and action; `None` where the event cannot happen in `s`,
/// which changes nothing.
pub open spec fn link_step(s: LinkState, t: TimerModel, e: LinkEvent) -> Option<
    (LinkState, TimerModel, LinkAction),
> {
    match (s, e) {
        (LinkState::Disconnected, LinkEvent::Retry) => Some(
            (LinkState::Connecting, t, LinkAction::Connect),
        ),
        (LinkState::Connecting, LinkEvent::TransportOpened) => Some(
            (LinkState::Handshaking, t, LinkAction::Handshake),
        ),
        (LinkState::Handshaking, LinkEvent::HandshakeDone) => Some(
            (LinkState::Connected, timer_start(t.flat, t.init_ms, t.max_ms), LinkAction::Receive),
        ),
        (LinkState::Connected, LinkEvent::MessageReceived) => Some(
            (LinkState::Connected, t, LinkAction::Receive),
        ),
        (LinkState::Connecting, LinkEvent::TransportFailed)
        | (LinkState::Handshaking, LinkEvent::HandshakeFailed)
        | (LinkState::Connected, LinkEvent::ReceiveFailed) => Some(
            (LinkState::Disconnected, timer_step(t), LinkAction::Sleep(t.cur_ms as u64)),
        ),
        _ => None,
    }
}

/// The reconnecting client's state and backoff timer.
pub struct ConnectionLoop {
    state: LinkState,
    timer: DoublingTimer,
}

impl View for ConnectionLoop {
    type V = (LinkState, TimerModel);

    closed spec fn view(&self) -> (LinkState, TimerModel) {
        (self.state, self.timer@)
    }
}

impl ConnectionLoop {
    /// The backoff timer is well formed.
    pub closed spec fn wf(&self) -> bool {
        self.timer.wf()
    }

    /// A disconnected client with the given backoff timer.
    pub fn new(timer: DoublingTimer) -> (r: Self)
        requires
            timer.wf(),
        ensures
            r.wf(),
            r@.0 == LinkState::Disconnected,
            r@.1 == timer@,
    {
        Self { state: LinkState::Disconnected, timer }
    }

    /// A disconnected client with the usual backoff: five attempts a second
    /// apart, then doubling up to thirty seconds.
    pub fn with_default_backoff() -> (r: Self)
        ensures
            r.wf(),
            r@.0 == LinkState::Disconnected,
            r@.1 == timer_start(RETRY_FLAT as nat, RETRY_INIT_MS as nat, RETRY_MAX_MS as nat),
    {
        Self::new(DoublingTimer::with_max(RETRY_FLAT, RETRY_INIT_MS, RETRY_MAX_MS))
    }

    /// Where the client stands.
    pub fn state(&self) -> (r: LinkState)
        ensures
            r == self@.0,
    {
        self.state
    }

    /// Moves on `event`; `None`, with nothing changed, for an event that
    /// cannot happen in the current state. Only a completed handshake
    /// lowers the backoff delay, so delays never fall within a failure streak.
    pub fn step(&mut self, event: LinkEvent) -> (r: Option<LinkAction>)
        requires
            old(self).wf(),
        ensures
            final(self).wf(),
            match link_step(old(self)@.0, old(self)@.1, event) {
                Some((s, t, a)) => r == Some(a) && final(self)@.0 == s && final(self)@.1
                    == t,
                None => r is None && final(self)@.0 == old(self)@.0
                    && final(self)@.1 == old(self)@.1,
            },
            event != LinkEvent::HandshakeDone ==> old(self)@.1.cur_ms <= final(self)@.1.cur_ms,
    {
        match (self.state, event) {
            (LinkState::Disconnected, LinkEvent::Retry) => {
                self.state = LinkState::Connecting;
                Some(LinkAction::Connect)
            },
            (LinkState::Connecting, LinkEvent::TransportOpened) => {
                self.state = LinkState::Handshaking;
                Some(LinkAction::Handshake)
            },
            (LinkState::Handshaking, LinkEvent::HandshakeDone) => {
                self.timer.reset();
                self.state = LinkState::Connected;
                Some(LinkAction::Receive)
            },
            (LinkState::Connected, LinkEvent::MessageReceived) => Some(LinkAction::Receive),
            (LinkState::Connecting, LinkEvent::TransportFailed)
            | (LinkState::Handshaking, LinkEvent::HandshakeFailed)
            | (LinkState::Connected, LinkEvent::ReceiveFailed) => {
                let delay = self.timer.next();
                self.state = LinkState::Disconnected;
                Some(LinkAction::Sleep(delay))
            },
            _ => None,
        }
    }
}

} // verus!
