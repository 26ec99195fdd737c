//! Error taxonomy of the client core.
//!
//! Each variant names one failure the caller can branch on. Connection
//! errors are fatal to a connect attempt, send errors are local and
//! immediate, call errors resolve an in-flight request exactly once, and
//! route errors mark malformed inbound traffic that is dropped.

use vstd::prelude::*;

verus! {

/// Failure of a connect attempt or of a lifecycle transition.
#[derive(Debug, Clone, Copy, PartialEq, Eq, Structural)]
pub enum ConnError {
    /// The handshake with the broker did not complete.
    HandshakeFailed,
    /// The broker refused the presented credentials.
    AuthRejected,
    /// The endpoint could not be reached.
    Unreachable,
    /// The connection is not in a state from which the transition is legal.
    InvalidState,
}

/// Local failure of an outbound send, reported immediately.
#[derive(Debug, Clone, Copy, PartialEq, Eq, Structural)]
pub enum SendError {
    /// No link is up and none is being re-established.
    NotConnected,
    /// The link is being re-established; the caller may retry later.
    Reconnecting,
    /// The payload exceeds the configured frame limit.
    PayloadTooLarge,
}

/// Resolution of a pending call other than a successful reply.
#[derive(Debug, Clone, Copy, PartialEq, Eq, Structural)]
pub enum CallError {
    /// The deadline elapsed before a reply arrived.
    Timeout,
    /// The connection dropped while the call was in flight.
    ConnectionLost,
    /// The server answered with an error code.
    Rejected(u32),
}

/// Malformed inbound traffic; logged and dropped, never handed to handlers.
#[derive(Debug, Clone, Copy, PartialEq, Eq, Structural)]
pub enum RouteError {
    /// The inbound event carries no discriminating tag.
    EmptyTag,
}

/// Failure to produce a value the configuration does not hold.
#[derive(Debug, Clone, Copy, PartialEq, Eq, Structural)]
pub enum ConfigError {
    /// No API key was supplied by flag or environment.
    MissingApiKey,
}

} // verus!
