//! Decoding of the compressed frame format that every frame carries once a
//! Set Compression packet has arrived: a VarInt uncompressed-data length,
//! then the body — raw when that length is zero, a zlib stream that must
//! inflate to exactly that length otherwise.

use vstd::prelude::*;
use vstd::slice::slice_subrange;
use vstd::slice::slice_to_vec;

use crate::errors::ProbeError;
use crate::varint::decode_varint;
use crate::varint::spec_decode_varint;

verus! {

/// What inflating `b` as a zlib stream yields, `None` when inflation fails.
/// Inflation is a function of the bytes alone; this name stands for its
/// result.
pub uninterp spec fn zlib_inflate(b: Seq<u8>) -> Option<Seq<u8>>;

/// Relies on flate2's `ZlibDecoder` together with
/// `std::io::Read::read_to_end`: inflating a byte slice is deterministic in
/// the bytes alone, yields the whole inflated stream on success, and fails
/// exactly when the bytes do not begin with a complete, valid zlib stream.
#[verifier::external_body]
fn inflate(data: &[u8]) -> (r: Option<Vec<u8>>)
    ensures
        match r {
            Some(v) => zlib_inflate(data@) == Some(v@),
            None => zlib_inflate(data@) is None,
        },
{
    let mut decoder = flate2::read::ZlibDecoder::new(data);
    let mut out: Vec<u8> = Vec::new();
    match std::io::Read::read_to_end(&mut decoder, &mut out) {
        Ok(_) => Some(out),
        Err(_) => None,
    }
}

/// Applies the compressed-frame length rule to an inflate outcome: the body
/// is accepted only when inflation succeeded and produced exactly the
/// declared number of bytes; anything else is a decompression failure.
pub fn accept_inflated(declared: u32, inflated: Option<Vec<u8>>) -> (r: Result<Vec<u8>, ProbeError>)
    ensures
        match inflated {
            Some(b) => {
                if b@.len() == declared as int {
                    r matches Ok(v) && v@ == b@
                } else {
                    r == Err::<Vec<u8>, ProbeError>(ProbeError::DecompressionFailure)
                }
            },
            None => r == Err::<Vec<u8>, ProbeError>(ProbeError::DecompressionFailure),
        },
{
    match inflated {
        Some(b) => {
            if b.len() == declared as usize {
                Ok(b)
            } else {
                Err(ProbeError::DecompressionFailure)
            }
        },
        None => Err(ProbeError::DecompressionFailure),
    }
}

/// What decoding a compressed-format frame payload yields: the declared
/// uncompressed length is read first; zero means the body is carried raw,
/// any other value demands a zlib body inflating to exactly that length.
pub open spec fn spec_decode_compressed(payload: Seq<u8>) -> Result<Seq<u8>, ProbeError> {
    match spec_decode_varint(payload, 5) {
        Err(e) => Err(e),
        Ok((n, c)) => {
            let body = payload.skip(c);
            if n == 0 {
                Ok(body)
            } else {
                match zlib_inflate(body) {
                    Some(v) => if v.len() == n as int {
                        Ok(v)
                    } else {
                        Err(ProbeError::DecompressionFailure)
                    },
                    None => Err(ProbeError::DecompressionFailure),
                }
            }
        },
    }
}

/// Decodes one frame payload under active compression: reads the declared
/// uncompressed length, then passes the body through unchanged when that
/// length is zero, or inflates it and holds it to exactly that length.
pub fn decode_compressed_frame(payload: &[u8]) -> (r: Result<Vec<u8>, ProbeError>)
    ensures
        match r {
            Ok(v) => spec_decode_compressed(payload@) matches Ok(b) && v@ == b,
            Err(e) => spec_decode_compressed(payload@) == Err::<Seq<u8>, ProbeError>(e),
        },
{
    proof {
        assert(payload@.skip(0) =~= payload@);
    }
    match decode_varint(payload, 0) {
        Err(e) => Err(e),
        Ok((n, consumed)) => {
            let body = slice_subrange(payload, consumed, payload.len());
            proof {
                assert(body@ =~= payload@.skip(consumed as int));
            }
            let declared: u32 = #[verifier::truncate] (n as u32);
            if declared == 0 {
                proof {
                    assert(spec_decode_compressed(payload@) == Ok::<Seq<u8>, ProbeError>(body@));
                }
                Ok(slice_to_vec(body))
            } else {
                let opt = inflate(body);
                let res = accept_inflated(declared, opt);
                proof {
                    assert(res is Ok ==> opt is Some && opt->0@.len() == declared as int);
                    assert(res is Ok ==> spec_decode_compressed(payload@)->Ok_0 == opt->0@);
                    assert(res is Err ==> spec_decode_compressed(payload@) == Err::<
                        Seq<u8>,
                        ProbeError,
                    >(res->Err_0));
                }
                res
            }
        },
    }
}

} // verus!
