//! The error taxonomy of the client.
//!
//! `FramingError` and `DecodeError` arise while decoding the subscribe
//! stream; `ValidationError` is returned synchronously to a caller that
//! supplied an empty required identifier; `TransportError` classifies
//! connection-level failures reported by the surrounding application.

use vstd::prelude::*;

verus! {

/// Why decoding of a byte stream stopped.
///
/// `Framing` means the length field held a byte that is neither an ASCII
/// digit nor a newline (or the declared length cannot be represented);
/// `Decode` means a correctly framed payload failed to deserialize into an
/// event.
#[derive(Clone, Copy, Debug, PartialEq, Eq, Structural)]
pub enum CodecError {
    Framing,
    Decode,
}

/// A caller-supplied identifier required by a call was empty.
#[derive(Clone, Copy, Debug, PartialEq, Eq, Structural)]
pub enum ValidationError {
    EmptyTaskId,
    EmptyAgentId,
    EmptyExecutorId,
    EmptyUuid,
}

/// A connection-level failure on the subscribe stream or an outbound call.
/// Produced by the application's transport and consumed by the reconnect
/// logic; decoding failures are folded in so that one terminal signal type
/// drives the backoff loop.
#[derive(Clone, Copy, Debug, PartialEq, Eq, Structural)]
pub enum TransportError {
    ConnectionFailed,
    StreamClosed,
    Codec(CodecError),
}

impl CodecError {
    /// True exactly of the framing variant; lets callers distinguish a
    /// malformed length field from a schema-invalid payload.
    pub fn is_framing(&self) -> (r: bool)
        ensures
            r == (*self is Framing),
    {
        match self {
            CodecError::Framing => true,
            CodecError::Decode => false,
        }
    }
}

} // verus!
