//! The error kinds a probe can run into. Every error raised while probing a
//! single target is converted into that target's terminal result; none aborts
//! the rest of a scan.

use vstd::prelude::*;

verus! {

/// What went wrong while probing one target.
#[derive(Clone, Copy, Debug, PartialEq, Eq, Structural)]
pub enum ProbeError {
    /// The TCP connection could not be established.
    ConnectFailure,
    /// A per-phase timeout fired before the phase finished.
    Timeout,
    /// A variable-width integer field carried a continuation bit into a
    /// sixth byte, which no 32-bit value can need.
    MalformedVarInt,
    /// A declared length exceeds the bytes actually available.
    IncompletePacket,
    /// A compressed frame body was not valid zlib data, or inflated to a
    /// length other than the one it declared.
    DecompressionFailure,
    /// The status response body was not the JSON document it should be.
    JsonParseFailure,
    /// The login sub-protocol was asked for on a protocol version older
    /// than the oldest one whose login-start packet this crate can build.
    UnsupportedProtocolVersion,
}

impl ProbeError {
    /// A fixed human-readable message for each error kind, used as the
    /// `error` field of a scan result.
    pub fn message(&self) -> (r: &'static str)
        ensures
            *self is ConnectFailure ==> r@ == "connection failed"@,
            *self is Timeout ==> r@ == "timeout"@,
            *self is MalformedVarInt ==> r@ == "VarInt too long"@,
            *self is IncompletePacket ==> r@ == "incomplete packet"@,
            *self is DecompressionFailure ==> r@ == "decompression failed"@,
            *self is JsonParseFailure ==> r@ == "invalid status JSON"@,
            *self is UnsupportedProtocolVersion ==> r@ == "protocol version too old"@,
    {
        match self {
            ProbeError::ConnectFailure => "connection failed",
            ProbeError::Timeout => "timeout",
            ProbeError::MalformedVarInt => "VarInt too long",
            ProbeError::IncompletePacket => "incomplete packet",
            ProbeError::DecompressionFailure => "decompression failed",
            ProbeError::JsonParseFailure => "invalid status JSON",
            ProbeError::UnsupportedProtocolVersion => "protocol version too old",
        }
    }
}

} // verus!
