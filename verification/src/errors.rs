//! The error taxonomy: every fallible operation of the library surfaces
//! exactly one of these to its immediate caller. Nothing is retried,
//! buffered or logged internally.

use vstd::prelude::*;

verus! {

/// One failure kind per way an operation can go wrong.
#[derive(Clone, Copy, Debug, PartialEq, Eq, Structural)]
pub enum HathoraError {
    /// An HTTP call or channel dial could not complete.
    Network,
    /// A coordinator response body did not match the expected JSON shape.
    Protocol,
    /// The channel dial or the handshake send failed.
    Connect,
    /// The underlying socket kind cannot be switched to non-blocking mode.
    UnsupportedSocket,
    /// A post-connect send on the channel failed.
    Write,
    /// A message of an unexpected frame kind (e.g. text) was received.
    UnexpectedFrame,
    /// The close signal could not be sent.
    Disconnect,
    /// A bearer token could not be decoded into its claims.
    MalformedToken,
    /// An operation was attempted on a transport that is not ready.
    NotConnected,
}

} // verus!
