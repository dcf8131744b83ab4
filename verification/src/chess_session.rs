use vstd::prelude::*;

use crate::messages::{Disconnect, InMessage, NewConnection, OutMessage};
use crate::types::{DeliveryHandle, SessionId};

verus! {

/// Interval, in time units (seconds), between heartbeat pings to the peer.
pub const HEARTBEAT_INTERVAL: u64 = 5;

/// How long, in time units (seconds), the peer may stay silent after the
/// last sign of life before the connection is dropped.
pub const CLIENT_TIMEOUT: u64 = 10;

/// A decoded inbound transport frame, as the transport hands it to the
/// connection. The core never parses or frames bytes itself.
pub enum Frame {
    Ping(Vec<u8>),
    Pong(Vec<u8>),
    Text(String),
    Binary(Vec<u8>),
    Close,
    Continuation,
    Nop,
}

/// A protocol violation reported by the transport in place of a frame.
pub struct ProtocolError;

/// What the connection asks its surrounding runtime to do, in order. All of
/// it is fire-and-forget: nothing is awaited and nothing is retried.
pub enum Action {
    /// Answer a ping, echoing its payload back to the peer.
    Pong(Vec<u8>),
    /// Probe the peer with a heartbeat ping.
    Ping(Vec<u8>),
    /// Write an outbound text frame to the peer.
    Text(String),
    /// Forward a received text message to the hub for relay.
    Relay(InMessage),
    /// Tell the hub this connection is leaving.
    Leave(Disconnect),
    /// Close the connection; no further event is processed after this.
    Stop,
}

/// The connection lifecycle: `Starting` until the hub answers the
/// registration request, then `Active`, then `Stopped` — terminal.
#[derive(Clone, Copy, PartialEq, Eq, Structural, Debug)]
pub enum SessionState {
    Starting,
    Active,
    Stopped,
}

/// Whether, at time `now`, the last sign of life at `hb` lies longer ago
/// than the timeout threshold.
pub open spec fn hb_expired(hb: u64, now: u64) -> bool {
    now - hb > CLIENT_TIMEOUT
}

/// The per-connection state machine: the identifier the hub assigned, the
/// time of the peer's last sign of life, and the lifecycle state. One
/// instance exists per live connection and nothing else ever touches it.
pub struct ChessSession {
    /// The unique session identifier; 0 until the hub has answered the
    /// registration request (0 is never a real identifier).
    pub id: SessionId,
    /// When the peer last confirmed it is alive: set on creation, refreshed
    /// by each inbound ping or pong.
    pub hb: u64,
    /// Where in its lifecycle the connection stands.
    pub state: SessionState,
}

impl ChessSession {
    /// A connection fresh off the transport: liveness clock at `now`, no
    /// identifier assigned yet, registration still ahead.
    pub fn new(now: u64) -> (s: ChessSession)
        ensures
            s.id == 0,
            s.hb == now,
            s.state is Starting,
    {
        ChessSession { id: 0, hb: now, state: SessionState::Starting }
    }

    /// On start the connection registers with the hub: this builds the
    /// registration request carrying the delivery handle `addr` through
    /// which the hub will push text back. The session stays in `Starting`,
    /// processing no other event, until the hub's answer reaches
    /// `join_result`.
    pub fn started(&mut self, addr: DeliveryHandle) -> (req: NewConnection)
        requires
            old(self).state is Starting,
        ensures
            req.addr == addr,
            *final(self) == *old(self),
    {
        NewConnection { addr }
    }

    /// The hub's answer to the registration request: a fresh identifier
    /// moves the session to `Active`; no answer (hub unreachable) is fatal
    /// to this connection, which stops. Returns whether to stop.
    pub fn join_result(&mut self, res: Option<SessionId>) -> (stop: bool)
        requires
            old(self).state is Starting,
        ensures
            final(self).hb == old(self).hb,
            match res {
                Some(id) => {
                    &&& !stop
                    &&& final(self).id == id
                    &&& final(self).state is Active
                },
                None => {
                    &&& stop
                    &&& final(self).id == old(self).id
                    &&& final(self).state is Stopped
                },
            },
    {
        match res {
            Some(id) => {
                self.id = id;
                self.state = SessionState::Active;
                false
            },
            None => {
                self.state = SessionState::Stopped;
                true
            },
        }
    }

    /// Handles one decoded inbound frame, arriving at time `now`. A ping is
    /// answered with a pong and refreshes the liveness clock; a pong
    /// refreshes the clock only; a text frame is trimmed of surrounding
    /// whitespace and forwarded to the hub under this connection's
    /// identifier; a binary frame is ignored; a close frame, an unsupported
    /// continuation frame or a protocol error stops the connection.
    pub fn handle(&mut self, msg: Result<Frame, ProtocolError>, now: u64) -> (actions: Vec<Action>)
        requires
            old(self).state is Active,
        ensures
            final(self).id == old(self).id,
            msg is Err ==> {
                &&& *final(self) == ChessSession { state: SessionState::Stopped, ..*old(self) }
                &&& actions@.len() == 1
                &&& actions@[0] is Stop
            },
            msg matches Ok(Frame::Ping(m)) ==> {
                &&& *final(self) == ChessSession { hb: now, ..*old(self) }
                &&& actions@.len() == 1
                &&& (actions@[0] matches Action::Pong(p) && p@ == m@)
            },
            msg matches Ok(Frame::Pong(m)) ==> {
                &&& *final(self) == ChessSession { hb: now, ..*old(self) }
                &&& actions@.len() == 0
            },
            msg matches Ok(Frame::Text(t)) ==> {
                &&& *final(self) == *old(self)
                &&& actions@.len() == 1
                &&& (actions@[0] matches Action::Relay(im) && im.id == old(self).id
                    && im.content@ == trim_of(t@))
            },
            msg matches Ok(Frame::Binary(m)) ==> {
                &&& *final(self) == *old(self)
                &&& actions@.len() == 0
            },
            ((msg matches Ok(Frame::Close)) || (msg matches Ok(Frame::Continuation))) ==> {
                &&& *final(self) == ChessSession { state: SessionState::Stopped, ..*old(self) }
                &&& actions@.len() == 1
                &&& actions@[0] is Stop
            },
            msg matches Ok(Frame::Nop) ==> {
                &&& *final(self) == *old(self)
                &&& actions@.len() == 0
            },
    {
        let frame = match msg {
            Err(_) => {
                self.state = SessionState::Stopped;
                let mut v: Vec<Action> = Vec::new();
                v.push(Action::Stop);
                return v;
            },
            Ok(frame) => frame,
        };
        match frame {
            Frame::Ping(m) => {
                self.hb = now;
                let mut v: Vec<Action> = Vec::new();
                v.push(Action::Pong(m));
                v
            },
            Frame::Pong(_) => {
                self.hb = now;
                Vec::new()
            },
            Frame::Text(t) => {
                let content = trim_str(t.as_str());
                let mut v: Vec<Action> = Vec::new();
                v.push(Action::Relay(InMessage { id: self.id, content }));
                v
            },
            Frame::Binary(_) => Vec::new(),
            Frame::Close => {
                self.state = SessionState::Stopped;
                let mut v: Vec<Action> = Vec::new();
                v.push(Action::Stop);
                v
            },
            Frame::Continuation => {
                self.state = SessionState::Stopped;
                let mut v: Vec<Action> = Vec::new();
                v.push(Action::Stop);
                v
            },
            Frame::Nop => Vec::new(),
        }
    }

    /// One liveness timer tick at time `now` (the ticks come every
    /// `HEARTBEAT_INTERVAL`; the clock never runs backwards, so `now` is at
    /// least the last sign of life). A peer silent for longer than
    /// `CLIENT_TIMEOUT` is presumed dead: the connection tells the hub it is
    /// leaving and stops, sending no further ping. Otherwise it pings the
    /// peer and carries on unchanged.
    pub fn hb(&mut self, now: u64) -> (actions: Vec<Action>)
        requires
            old(self).state is Active,
            old(self).hb <= now,
        ensures
            hb_expired(old(self).hb, now) ==> {
                &&& *final(self) == ChessSession { state: SessionState::Stopped, ..*old(self) }
                &&& actions@.len() == 2
                &&& (actions@[0] matches Action::Leave(d) && d.id == old(self).id)
                &&& actions@[1] is Stop
            },
            !hb_expired(old(self).hb, now) ==> {
                &&& *final(self) == *old(self)
                &&& actions@.len() == 1
                &&& (actions@[0] matches Action::Ping(p) && p@ == Seq::<u8>::empty())
            },
    {
        if now - self.hb > CLIENT_TIMEOUT {
            self.state = SessionState::Stopped;
            let mut v: Vec<Action> = Vec::new();
            v.push(Action::Leave(Disconnect { id: self.id }));
            v.push(Action::Stop);
            v
        } else {
            let mut v: Vec<Action> = Vec::new();
            v.push(Action::Ping(Vec::new()));
            v
        }
    }

    /// Entering the terminal state: tells the hub this identifier is gone
    /// and lets the transport close. At the hub, a leave for an identifier
    /// that is not registered is a harmless no-op, so this is safe whatever
    /// has happened before.
    pub fn stopping(&mut self) -> (msg: Disconnect)
        ensures
            msg.id == old(self).id,
            (*final(self) == ChessSession { state: SessionState::Stopped, ..*old(self) }),
    {
        self.state = SessionState::Stopped;
        Disconnect { id: self.id }
    }

    /// A hub-delivered broadcast: the text is written back to the peer as an
    /// outbound text frame; the session itself does not change.
    pub fn handle_out_message(&self, msg: OutMessage) -> (a: Action)
        ensures
            (a matches Action::Text(t) && t@ == msg.0@),
    {
        Action::Text(msg.0)
    }
}

/// What a trimmed string is; the characters of the input alone determine it.
pub uninterp spec fn trim_of(s: Seq<char>) -> Seq<char>;

/// Relies on str::trim: returns the input with leading and trailing
/// whitespace removed — a substring, so never longer than the input — and a
/// function of the characters alone.
#[verifier::external_body]
fn trim_str(s: &str) -> (r: String)
    ensures
        r@ == trim_of(s@),
        r@.len() <= s@.len(),
{
    s.trim().to_owned()
}

/// A pong received at time `pong_time` sets the liveness clock to
/// `pong_time` (see `ChessSession::handle`); a timer tick at any time
/// within the timeout window of that moment then finds the clock unexpired,
/// so the connection is not evicted and pings on (see `ChessSession::hb`).
pub proof fn lemma_pong_defers_eviction(pong_time: u64, tick_time: u64)
    requires
        tick_time <= pong_time + CLIENT_TIMEOUT,
    ensures
        !hb_expired(pong_time, tick_time),
{
}

/// With no sign of life since time `hb`, a timer tick past the timeout
/// window finds the clock expired, so the connection leaves and stops on
/// its own — no inbound frame is needed to trigger the eviction (see
/// `ChessSession::hb`).
pub proof fn lemma_silence_evicts(hb: u64, tick_time: u64)
    requires
        hb + CLIENT_TIMEOUT < tick_time,
    ensures
        hb_expired(hb, tick_time),
{
}

} // verus!
