//! The compute half of the status sub-protocol: pulling the JSON document
//! out of a status-response frame payload. The payload is
//! `[VarInt packet-id][VarInt json-length][json-length bytes of UTF-8]`.

use vstd::prelude::*;
use vstd::slice::slice_subrange;
use vstd::slice::slice_to_vec;

use crate::errors::ProbeError;
use crate::varint::decode_varint;
use crate::varint::spec_decode_varint;

verus! {

/// What pulling the JSON document out of a status-response payload yields:
/// after the packet id, the declared JSON length must be followed by at
/// least that many bytes, and exactly that many are taken.
pub open spec fn spec_status_json(payload: Seq<u8>) -> Result<Seq<u8>, ProbeError> {
    match spec_decode_varint(payload, 5) {
        Err(e) => Err(e),
        Ok((_id, c1)) => {
            let rest = payload.skip(c1);
            match spec_decode_varint(rest, 5) {
                Err(e) => Err(e),
                Ok((jlen, c2)) => {
                    let body = rest.skip(c2);
                    if jlen as int <= body.len() {
                        Ok(body.take(jlen as int))
                    } else {
                        Err(ProbeError::IncompletePacket)
                    }
                },
            }
        },
    }
}

/// Extracts the JSON document from a status-response frame payload, or the
/// error the bytes force: a malformed length VarInt, or a declared JSON
/// length that exceeds the bytes actually present.
pub fn extract_status_json(payload: &[u8]) -> (r: Result<Vec<u8>, ProbeError>)
    ensures
        match r {
            Ok(v) => spec_status_json(payload@) matches Ok(b) && v@ == b,
            Err(e) => spec_status_json(payload@) == Err::<Seq<u8>, ProbeError>(e),
        },
{
    proof {
        assert(payload@.skip(0) =~= payload@);
    }
    match decode_varint(payload, 0) {
        Err(e) => Err(e),
        Ok((_id, c1)) => {
            match decode_varint(payload, c1) {
                Err(e) => Err(e),
                Ok((jlen, c2)) => {
                    let off = c1 + c2;
                    proof {
                        assert(payload@.skip(c1 as int).skip(c2 as int) =~= payload@.skip(
                            off as int,
                        ));
                    }
                    let jlen_u: u32 = #[verifier::truncate] (jlen as u32);
                    if jlen_u as usize <= payload.len() - off {
                        let body = slice_subrange(payload, off, off + jlen_u as usize);
                        proof {
                            assert(body@ =~= payload@.skip(off as int).take(jlen_u as int));
                        }
                        Ok(slice_to_vec(body))
                    } else {
                        Err(ProbeError::IncompletePacket)
                    }
                },
            }
        },
    }
}

} // verus!
