//! Client library for a matchmaking/coordination service: authenticate,
//! create a remote session ("room"), and drive the handshake that binds a
//! binary channel to that session.
//!
//! The protocol content lives here, verified: the request targets and
//! response shapes of the coordinator calls ([`client`]), the canonical
//! Handshake Frame and the response grammar ([`json`]), the bearer-token
//! claims decode ([`token`], [`b64url`]), and the session lifecycle of a
//! transport handle ([`transport`]). The blocking HTTP and socket work
//! around these functions is the embedding application's.

pub mod b64url;
pub mod client;
pub mod errors;
pub mod json;
pub mod token;
pub mod transport;

pub use client::HathoraClient;
pub use client::LoginResponse;
pub use errors::HathoraError;
pub use transport::HathoraTransport;
pub use transport::HathoraTransportType;
