//! The ways in which bytes from the wire can fail to be a message.

use vstd::prelude::*;

verus! {

/// Why a frame or a payload was refused.
#[derive(Clone, Copy, Debug, PartialEq, Eq, Structural)]
pub enum WireError {
    /// The stream ended before the four bytes of a length prefix were read.
    ConnectionClosed,
    /// The stream ended after a length prefix and before the payload that
    /// the prefix announced was complete.
    TruncatedPayload,
    /// The payload is not the encoding of any message.
    MalformedPayload,
    /// The payload is longer than a length prefix can announce.
    PayloadTooLarge,
}

} // verus!
