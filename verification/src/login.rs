//! The decision core of the login sub-protocol's read loop: given the
//! session's compression state and one frame payload, classify the server's
//! first meaningful answer — disconnect, encryption request or login
//! success — or track a Set Compression packet and keep reading.

use vstd::prelude::*;
use vstd::slice::slice_to_vec;

use crate::errors::ProbeError;
use crate::frame::decode_compressed_frame;
use crate::frame::spec_decode_compressed;
use crate::packet::MIN_PROTOCOL_VERSION;
use crate::varint::continues;
use crate::varint::decode_varint;
use crate::varint::spec_decode_varint;

verus! {

/// The server refused the login (disconnect): whitelisted or otherwise
/// rejected.
pub const AUTH_WHITELIST: i32 = 2;

/// The server asked for encryption: online mode, identities are verified.
pub const AUTH_ONLINE: i32 = 1;

/// The server accepted the login outright: offline mode.
pub const AUTH_OFFLINE: i32 = 0;

/// No classification could be made before the login read timed out.
pub const AUTH_UNKNOWN: i32 = -1;

/// The mutable state of one connection while the login sub-protocol runs.
/// The compression threshold is -1 until the server sends Set Compression
/// and any non-negative value afterwards, from which point every later
/// frame carries the compressed format.
pub struct ProtocolSession {
    pub compression_threshold: i32,
}

impl ProtocolSession {
    /// A fresh session: compression not yet negotiated.
    pub fn new() -> (r: Self)
        ensures
            r.compression_threshold == -1,
    {
        ProtocolSession { compression_threshold: -1 }
    }
}

/// Decides whether the login sub-protocol may be driven for `protocol`:
/// versions below `MIN_PROTOCOL_VERSION` predate the login-start layout
/// this crate builds and are refused before any packet is sent.
pub fn check_login_protocol(protocol: i32) -> (r: Result<(), ProbeError>)
    ensures
        r is Ok <==> protocol >= MIN_PROTOCOL_VERSION,
        r is Err ==> r == Err::<(), ProbeError>(ProbeError::UnsupportedProtocolVersion),
{
    if protocol >= MIN_PROTOCOL_VERSION {
        Ok(())
    } else {
        Err(ProbeError::UnsupportedProtocolVersion)
    }
}

/// The lenient VarInt read used for the Set Compression threshold field:
/// 7-bit groups are combined until a byte without the continuation bit, the
/// bytes run out, or `fuel` groups have been read — truncation yields the
/// partial value rather than an error.
pub open spec fn lenient_varint(s: Seq<u8>, fuel: nat) -> u32
    decreases fuel,
{
    if fuel == 0 || s.len() == 0 {
        0
    } else if !continues(s[0]) {
        (s[0] & 0x7f) as u32
    } else {
        ((s[0] & 0x7f) as u32) | (lenient_varint(s.skip(1), (fuel - 1) as nat) << 7)
    }
}

fn read_lenient_varint(bytes: &[u8], start: usize, fuel: usize) -> (r: u32)
    requires
        start <= bytes@.len(),
    ensures
        r == lenient_varint(bytes@.skip(start as int), fuel as nat),
    decreases fuel,
{
    if fuel == 0 {
        return 0;
    }
    if start >= bytes.len() {
        proof {
            assert(bytes@.skip(start as int).len() == 0);
        }
        return 0;
    }
    let b = bytes[start];
    proof {
        assert(bytes@.skip(start as int)[0] == b);
    }
    if b & 0x80 == 0 {
        (b & 0x7f) as u32
    } else {
        proof {
            assert(bytes@.skip(start as int).skip(1) =~= bytes@.skip(start as int + 1));
        }
        ((b & 0x7f) as u32) | (read_lenient_varint(bytes, start + 1, fuel - 1) << 7)
    }
}

/// What one login-phase frame decides: the classification or error it
/// yields, and the compression threshold the session carries afterwards.
/// Packet id 0 (disconnect) classifies as whitelisted/rejected, 1
/// (encryption request) as online, 2 (login success) as offline; 3 (set
/// compression) updates the threshold and keeps the loop going, as does any
/// other id, the plugin-request id 4 among them. An empty payload is
/// skipped.
pub open spec fn spec_login_step(threshold: i32, payload: Seq<u8>) -> (Result<
    Option<i32>,
    ProbeError,
>, i32) {
    let body_r = if threshold >= 0 {
        spec_decode_compressed(payload)
    } else {
        Ok(payload)
    };
    match body_r {
        Err(e) => (Err(e), threshold),
        Ok(body) => {
            if body.len() == 0 {
                (Ok(None), threshold)
            } else {
                match spec_decode_varint(body, 5) {
                    Err(e) => (Err(e), threshold),
                    Ok((id, c)) => {
                        if id == 0 {
                            (Ok(Some(AUTH_WHITELIST)), threshold)
                        } else if id == 1 {
                            (Ok(Some(AUTH_ONLINE)), threshold)
                        } else if id == 2 {
                            (Ok(Some(AUTH_OFFLINE)), threshold)
                        } else if id == 3 {
                            (Ok(None), lenient_varint(body.skip(c), 5) as i32)
                        } else {
                            (Ok(None), threshold)
                        }
                    },
                }
            }
        },
    }
}

/// Digests one login-phase frame payload: decompresses it if compression is
/// active, reads the packet id, and either classifies the server's policy
/// (`Some(mode)`), absorbs the packet and asks the caller to keep reading
/// (`None`, updating the compression threshold on Set Compression), or
/// returns the decode error that ends the probe.
pub fn login_step(session: &mut ProtocolSession, payload: &[u8]) -> (r: Result<
    Option<i32>,
    ProbeError,
>)
    ensures
        ({
            let (res, th) = spec_login_step(old(session).compression_threshold, payload@);
            r == res && final(session).compression_threshold == th
        }),
{
    let body: Vec<u8> = if session.compression_threshold >= 0 {
        match decode_compressed_frame(payload) {
            Ok(v) => v,
            Err(e) => {
                return Err(e);
            },
        }
    } else {
        slice_to_vec(payload)
    };
    if body.len() == 0 {
        return Ok(None);
    }
    proof {
        assert(body@.skip(0) =~= body@);
    }
    match decode_varint(body.as_slice(), 0) {
        Err(e) => Err(e),
        Ok((id, c)) => {
            let id_u: u32 = #[verifier::truncate] (id as u32);
            if id_u == 0 {
                Ok(Some(AUTH_WHITELIST))
            } else if id_u == 1 {
                Ok(Some(AUTH_ONLINE))
            } else if id_u == 2 {
                Ok(Some(AUTH_OFFLINE))
            } else if id_u == 3 {
                let th_u = read_lenient_varint(body.as_slice(), c, 5);
                session.compression_threshold = #[verifier::truncate] (th_u as i32);
                proof {
                    assert((th_u as i32) as u32 == th_u) by (bit_vector);
                }
                Ok(None)
            } else {
                Ok(None)
            }
        },
    }
}

} // verus!
