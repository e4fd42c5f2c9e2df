//! Transport: the capability abstraction over one binary channel, and the
//! session state machine that drives it.
//!
//! A transport is created unconnected. `connect` dials the channel
//! endpoint, sends the Handshake Frame as one binary message, then
//! switches the socket to non-blocking mode; from then on the transport is
//! ready and `read`/`write` never block. `disconnect` sends a close signal
//! and leaves the handle terminally unusable. The decisions of that
//! lifecycle — what may run in which state, what bytes go out, how every
//! channel event is answered — are the verified functions here; the
//! embedding application performs the socket work between them.

use vstd::prelude::*;
use crate::errors::HathoraError;
use crate::json::handshake_bytes;
use crate::json::handshake_frame;
use vstd::string::StringExecFns;

verus! {

/// The closed set of channel kinds a transport can be backed by.
#[derive(Clone, Copy, Debug, PartialEq, Eq, Structural)]
pub enum HathoraTransportType {
    WebSocket,
}

/// The capability set every transport variant provides. `read` yields
/// `Ok(None)` when no message is available ("would block"); after
/// `disconnect`, every operation fails.
pub trait HathoraTransport {
    /// Dial the channel, send the Handshake Frame binding it to
    /// `state_id`, and switch to non-blocking mode.
    fn connect(&mut self, state_id: &str, token: &str) -> Result<(), HathoraError>;

    /// Send one binary message holding exactly `data`.
    fn write(&mut self, data: Vec<u8>) -> Result<(), HathoraError>;

    /// Receive the next complete binary message, without blocking.
    fn read(&mut self) -> Result<Option<Vec<u8>>, HathoraError>;

    /// Whether both directions of the channel are currently usable.
    fn is_ready(&self) -> bool;

    /// Send a close signal, optionally with a numeric close code, and
    /// leave the transport unusable.
    fn disconnect(&mut self, code: Option<i32>) -> Result<(), HathoraError>;
}

/// Where a transport stands in its lifecycle.
#[derive(Clone, Copy, Debug, PartialEq, Eq, Structural)]
pub enum Phase {
    /// Created; no successful connect yet.
    Unconnected,
    /// Connected, handshake sent, channel in non-blocking mode.
    Ready,
    /// Disconnected; terminally unusable.
    Closed,
}

/// What the socket layer reported about a connect attempt.
#[derive(Debug)]
pub enum ConnectOutcome {
    /// The dial could not be established.
    DialFailed,
    /// The dial succeeded but the handshake send failed.
    SendFailed,
    /// Dial and handshake send succeeded on a socket of this kind.
    Established(SocketKind),
}

/// The kind of socket under an established channel, as far as the
/// non-blocking switch is concerned.
#[derive(Clone, Copy, Debug)]
pub enum SocketKind {
    /// A plain TCP socket; can be switched to non-blocking mode.
    Plain,
    /// A TLS-wrapped TCP socket; can be switched to non-blocking mode.
    Tls,
    /// A socket kind the switch logic does not know how to handle.
    Unknown,
}

/// What the channel yielded on one read attempt.
#[derive(Debug)]
pub enum ReadEvent {
    /// A complete binary message.
    Binary(Vec<u8>),
    /// A complete message of some other frame kind (e.g. text).
    NonBinary,
    /// No message is available right now.
    WouldBlock,
    /// The channel failed outright during the read.
    ChannelFailed,
}

/// The session state machine of one transport handle.
#[derive(Clone, Copy, Debug, PartialEq, Eq, Structural)]
pub struct TransportSession {
    pub phase: Phase,
}

/// How a connect attempt moves the session: only an unconnected session
/// may connect; a failed dial or send leaves it unconnected with
/// `Connect`; an established channel on an unknown socket kind fails with
/// `UnsupportedSocket` and leaves it unconnected; otherwise the session
/// becomes ready.
pub open spec fn connect_step(s: TransportSession, outcome: ConnectOutcome) -> (
    TransportSession,
    Result<(), HathoraError>,
) {
    if s.phase != Phase::Unconnected {
        (s, Err(HathoraError::Connect))
    } else {
        match outcome {
            ConnectOutcome::DialFailed => (s, Err(HathoraError::Connect)),
            ConnectOutcome::SendFailed => (s, Err(HathoraError::Connect)),
            ConnectOutcome::Established(SocketKind::Plain) => (
                TransportSession { phase: Phase::Ready },
                Ok(()),
            ),
            ConnectOutcome::Established(SocketKind::Tls) => (
                TransportSession { phase: Phase::Ready },
                Ok(()),
            ),
            ConnectOutcome::Established(SocketKind::Unknown) => (
                s,
                Err(HathoraError::UnsupportedSocket),
            ),
        }
    }
}

/// What a write hands to the channel: the bytes unchanged when the
/// session is ready, `NotConnected` otherwise.
pub open spec fn write_step(s: TransportSession, data: Seq<u8>) -> Result<Seq<u8>, HathoraError> {
    if s.ready() {
        Ok(data)
    } else {
        Err(HathoraError::NotConnected)
    }
}

/// What a read attempt yields: the bytes of a binary message, `None` for
/// "would block" (no error), `UnexpectedFrame` for any other frame kind or
/// for a channel that failed during the receive (the receive-side
/// post-connect I/O failure), and `NotConnected` when the session is not
/// ready.
pub open spec fn read_step(s: TransportSession, ev: ReadEvent) -> Result<
    Option<Seq<u8>>,
    HathoraError,
> {
    if !s.ready() {
        Err(HathoraError::NotConnected)
    } else {
        match ev {
            ReadEvent::Binary(d) => Ok(Some(d@)),
            ReadEvent::NonBinary => Err(HathoraError::UnexpectedFrame),
            ReadEvent::WouldBlock => Ok(None),
            ReadEvent::ChannelFailed => Err(HathoraError::UnexpectedFrame),
        }
    }
}

/// How a disconnect moves the session: it becomes closed whatever
/// happens, and an optional close code is narrowed to the channel's
/// 16-bit close-code representation.
pub open spec fn close_step(s: TransportSession, code: Option<i32>) -> (
    TransportSession,
    Option<u16>,
) {
    (
        TransportSession { phase: Phase::Closed },
        match code {
            Some(c) => Some(c as u16),
            None => None,
        },
    )
}

impl TransportSession {
    /// Ready means: connected, and neither direction closed.
    pub open spec fn ready(self) -> bool {
        self.phase == Phase::Ready
    }

    /// A fresh session: unconnected, not ready.
    pub fn new() -> (r: TransportSession)
        ensures
            r.phase == Phase::Unconnected,
            !r.ready(),
    {
        TransportSession { phase: Phase::Unconnected }
    }

    /// Pure query: whether the session is ready. Never blocks, never
    /// mutates.
    pub fn is_ready(&self) -> (r: bool)
        ensures
            r == self.ready(),
    {
        self.phase == Phase::Ready
    }

    /// Begin a connect. On an unconnected session this yields the
    /// Handshake Frame to send — byte-identical to the canonical
    /// serialization of `{"token": token, "stateId": state_id}` — and on
    /// any other session it fails with `Connect`.
    pub fn connect_begin(&self, token: &str, state_id: &str) -> (r: Result<Vec<u8>, HathoraError>)
        ensures
            self.phase == Phase::Unconnected ==> (r matches Ok(f) && f@ == handshake_bytes(
                vstd::utf8::encode_utf8(token@),
                vstd::utf8::encode_utf8(state_id@),
            )),
            self.phase != Phase::Unconnected ==> (r matches Err(e) && e == HathoraError::Connect),
    {
        if self.phase == Phase::Unconnected {
            Ok(handshake_frame(token, state_id))
        } else {
            Err(HathoraError::Connect)
        }
    }

    /// Record what the socket layer reported for the dial, handshake send
    /// and non-blocking switch: exactly [`connect_step`].
    pub fn connect_finish(&mut self, outcome: ConnectOutcome) -> (r: Result<(), HathoraError>)
        ensures
            (*final(self), r) == connect_step(*old(self), outcome),
            r is Ok ==> final(self).ready(),
    {
        if !(self.phase == Phase::Unconnected) {
            return Err(HathoraError::Connect);
        }
        match outcome {
            ConnectOutcome::DialFailed => Err(HathoraError::Connect),
            ConnectOutcome::SendFailed => Err(HathoraError::Connect),
            ConnectOutcome::Established(SocketKind::Plain) => {
                self.phase = Phase::Ready;
                Ok(())
            },
            ConnectOutcome::Established(SocketKind::Tls) => {
                self.phase = Phase::Ready;
                Ok(())
            },
            ConnectOutcome::Established(SocketKind::Unknown) => Err(
                HathoraError::UnsupportedSocket,
            ),
        }
    }

    /// Gate a write: hand back exactly the bytes to send as one binary
    /// message — no framing, no chunking — or fail with `NotConnected`:
    /// exactly [`write_step`].
    pub fn write_gate(&self, data: Vec<u8>) -> (r: Result<Vec<u8>, HathoraError>)
        ensures
            match r {
                Ok(d) => write_step(*self, data@) == Ok::<Seq<u8>, HathoraError>(d@),
                Err(e) => write_step(*self, data@) == Err::<Seq<u8>, HathoraError>(e),
            },
    {
        if self.is_ready() {
            Ok(data)
        } else {
            Err(HathoraError::NotConnected)
        }
    }

    /// Answer one read attempt: exactly [`read_step`], so a would-block
    /// is `Ok(None)`, never an error.
    pub fn on_read(&self, ev: ReadEvent) -> (r: Result<Option<Vec<u8>>, HathoraError>)
        ensures
            match r {
                Ok(d) => read_step(*self, ev) matches Ok(d2) && d.deep_view() == d2,
                Err(e) => read_step(*self, ev) == Err::<Option<Seq<u8>>, HathoraError>(e),
            },
    {
        if !self.is_ready() {
            return Err(HathoraError::NotConnected);
        }
        match ev {
            ReadEvent::Binary(d) => Ok(Some(d)),
            ReadEvent::NonBinary => Err(HathoraError::UnexpectedFrame),
            ReadEvent::WouldBlock => Ok(None),
            ReadEvent::ChannelFailed => Err(HathoraError::UnexpectedFrame),
        }
    }

    /// Close the session: terminally, whatever the close signal later
    /// does on the wire; yields the channel close code: exactly
    /// [`close_step`].
    pub fn close(&mut self, code: Option<i32>) -> (r: Option<u16>)
        ensures
            (*final(self), r) == close_step(*old(self), code),
            !final(self).ready(),
    {
        self.phase = Phase::Closed;
        match code {
            Some(c) => Some(#[verifier::truncate] (c as u16)),
            None => None,
        }
    }
}

/// The channel endpoint of a session: `wss://{host}/connect/{app_id}`.
pub open spec fn connect_url_spec(host: Seq<char>, app_id: Seq<char>) -> Seq<char> {
    "wss://"@ + host + "/connect/"@ + app_id
}

/// Build the channel endpoint URL.
pub fn connect_url(host: &str, app_id: &str) -> (r: String)
    ensures
        r@ == connect_url_spec(host@, app_id@),
{
    let mut url = String::new();
    url.append("wss://");
    url.append(host);
    url.append("/connect/");
    url.append(app_id);
    proof {
        assert(url@ =~= connect_url_spec(host@, app_id@));
    }
    url
}

// ---------------------------------------------------------------------------
// Lifecycle laws
// ---------------------------------------------------------------------------

/// Law: a connect that succeeds leaves the session ready.
pub proof fn lemma_connect_success_ready(s: TransportSession, outcome: ConnectOutcome)
    ensures
        connect_step(s, outcome).1 is Ok ==> connect_step(s, outcome).0.ready(),
{
}

/// Law: after a disconnect, the session is not ready and every subsequent
/// write or read fails.
pub proof fn lemma_disconnect_invalidates(
    s: TransportSession,
    code: Option<i32>,
    data: Seq<u8>,
    ev: ReadEvent,
)
    ensures
        !close_step(s, code).0.ready(),
        write_step(close_step(s, code).0, data) == Err::<Seq<u8>, HathoraError>(
            HathoraError::NotConnected,
        ),
        read_step(close_step(s, code).0, ev) == Err::<Option<Seq<u8>>, HathoraError>(
            HathoraError::NotConnected,
        ),
{
}

/// Law: a failed dial leaves the session exactly as it was — in
/// particular unconnected, with no partial-success state.
pub proof fn lemma_failed_dial_leaves_state(s: TransportSession)
    ensures
        connect_step(s, ConnectOutcome::DialFailed).0 == s,
        connect_step(s, ConnectOutcome::DialFailed).1 == Err::<(), HathoraError>(
            HathoraError::Connect,
        ),
{
}

/// Law: on a ready session, a read finding no message yields the
/// would-block indication `Ok(None)` — not an error.
pub proof fn lemma_read_would_block(s: TransportSession)
    requires
        s.ready(),
    ensures
        read_step(s, ReadEvent::WouldBlock) == Ok::<Option<Seq<u8>>, HathoraError>(None),
{
}

} // verus!
