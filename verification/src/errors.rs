//! Error taxonomy of the protocol: handshake failures, data-plane send
//! failures, and the single client-facing error type that wraps them.

use vstd::prelude::*;

verus! {

/// Failures during the authenticated handshake, and when building or
/// accepting control envelopes.
#[derive(Clone, Copy, Debug, PartialEq, Eq, Structural)]
pub enum HandshakeError {
    /// A message exchange exceeded the fixed per-message deadline.
    Timeout,
    /// A malformed or undecodable message arrived.
    ProtocolViolation,
    /// A peer signature failed verification.
    AuthenticationFailed,
    /// Capability negotiation left nothing the session could carry.
    IncompatibleCapabilities,
    /// A control envelope was requested before session keys existed.
    KeysMissing,
    /// A control envelope's sequence number did not exceed the last
    /// accepted one.
    StaleSequence,
}

/// Data-plane send failures: a frame that cannot be serialized within the
/// wire format's limits, or a transport-level refusal.
#[derive(Debug)]
pub enum StreamError {
    FrameTooLarge,
    Transport(String),
}

/// Errors surfaced by the high-level client.
#[derive(Debug)]
pub enum ClientError {
    Io(String),
    Handshake(HandshakeError),
    Stream(StreamError),
}

impl From<HandshakeError> for ClientError {
    fn from(err: HandshakeError) -> (r: Self) {
        ClientError::Handshake(err)
    }
}

impl vstd::std_specs::convert::FromSpecImpl<HandshakeError> for ClientError {
    open spec fn obeys_from_spec() -> bool {
        true
    }

    open spec fn from_spec(err: HandshakeError) -> Self {
        ClientError::Handshake(err)
    }
}

impl From<StreamError> for ClientError {
    fn from(err: StreamError) -> (r: Self) {
        ClientError::Stream(err)
    }
}

impl vstd::std_specs::convert::FromSpecImpl<StreamError> for ClientError {
    open spec fn obeys_from_spec() -> bool {
        true
    }

    open spec fn from_spec(err: StreamError) -> Self {
        ClientError::Stream(err)
    }
}

} // verus!
