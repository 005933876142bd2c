//! The error taxonomy of the protocol client.

use vstd::prelude::*;

verus! {

/// Every failure the client can surface. Connection failures are retried by
/// the session's policy and then surfaced; a protocol mismatch is fatal and
/// never retried; a malformed response poisons the byte stream and forces a
/// reconnect; a not-found selection is distinct so that callers can tell
/// "nothing to do" from "system broken".
#[derive(PartialEq, Eq, Structural, Copy, Clone, Debug)]
pub enum ProtocolError {
    /// A socket connect, read, write or timeout failure in the I/O layer.
    Connection,
    /// The server answered version negotiation with this version, which is
    /// not the one the client supports.
    ProtocolMismatch(u32),
    /// A magic-tag or header-echo mismatch, or an out-of-bounds read while
    /// decoding a payload.
    MalformedResponse,
    /// A selection criterion matched no controller in the directory.
    NotFound,
}

} // verus!
