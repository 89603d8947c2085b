//! The protocol's variable-width integer codec: 7 value bits per byte, low
//! groups first, with bit 7 of each byte set exactly when more bytes follow.
//! A 32-bit value never needs more than five bytes, so a fifth byte that
//! still carries the continuation bit is a hard decode error.

use vstd::prelude::*;

use crate::errors::ProbeError;

verus! {

/// True when a byte of a variable-width integer says more bytes follow.
pub open spec fn continues(b: u8) -> bool {
    b & 0x80 != 0
}

/// The wire encoding of a 32-bit value: its low 7 bits, then the encoding
/// of the rest, with the continuation bit on every byte but the last.
/// Signed values are encoded through their 32-bit unsigned bit pattern.
pub open spec fn varint_encoding(v: u32) -> Seq<u8>
    decreases v,
    via varint_encoding_decreases
{
    if v < 0x80 {
        seq![v as u8]
    } else {
        seq![((v & 0x7f) | 0x80) as u8] + varint_encoding(v >> 7)
    }
}

#[via_fn]
proof fn varint_encoding_decreases(v: u32) {
    assert(v >= 0x80 ==> v >> 7 < v) by (bit_vector);
}

/// How many bytes the encoding of `v` takes: one per started 7-bit group.
pub open spec fn varint_len(v: u32) -> int {
    if v < 0x80 {
        1
    } else if v < 0x4000 {
        2
    } else if v < 0x20_0000 {
        3
    } else if v < 0x1000_0000 {
        4
    } else {
        5
    }
}

/// What decoding a variable-width integer from the front of `s` yields when
/// at most `fuel` bytes may be read: the value and the number of bytes
/// consumed, `MalformedVarInt` when the byte budget runs out with the
/// continuation bit still set, `IncompletePacket` when `s` runs out first.
pub open spec fn spec_decode_varint(s: Seq<u8>, fuel: nat) -> Result<(u32, int), ProbeError>
    decreases fuel,
{
    if fuel == 0 {
        Err(ProbeError::MalformedVarInt)
    } else if s.len() == 0 {
        Err(ProbeError::IncompletePacket)
    } else if !continues(s[0]) {
        Ok(((s[0] & 0x7f) as u32, 1))
    } else {
        match spec_decode_varint(s.skip(1), (fuel - 1) as nat) {
            Ok((v, n)) => Ok((((s[0] & 0x7f) as u32) | (v << 7), n + 1)),
            Err(e) => Err(e),
        }
    }
}

pub proof fn lemma_varint_encoding_len(v: u32)
    ensures
        varint_encoding(v).len() == varint_len(v),
    decreases v,
{
    if v >= 0x80 {
        assert(v >> 7 < v && ((v >> 7 < 0x80) == (v < 0x4000)) && ((v >> 7 < 0x4000) == (v
            < 0x20_0000)) && ((v >> 7 < 0x20_0000) == (v < 0x1000_0000)) && (v >> 7
            < 0x1000_0000)) by (bit_vector)
            requires
                v >= 0x80,
        ;
        lemma_varint_encoding_len(v >> 7);
    }
}

proof fn lemma_varint_decode_encoding(v: u32, rest: Seq<u8>, fuel: nat)
    requires
        varint_len(v) <= fuel,
    ensures
        spec_decode_varint(varint_encoding(v) + rest, fuel) == Ok::<(u32, int), ProbeError>(
            (v, varint_len(v)),
        ),
    decreases v,
{
    let s = varint_encoding(v) + rest;
    if v < 0x80 {
        assert(s[0] == v as u8);
        assert(((v as u8) & 0x80) == 0 && ((v as u8) & 0x7f) as u32 == v) by (bit_vector)
            requires
                v < 0x80,
        ;
    } else {
        assert(v >> 7 < v && ((v >> 7 < 0x80) == (v < 0x4000)) && ((v >> 7 < 0x4000) == (v
            < 0x20_0000)) && ((v >> 7 < 0x20_0000) == (v < 0x1000_0000)) && (v >> 7
            < 0x1000_0000)) by (bit_vector)
            requires
                v >= 0x80,
        ;
        lemma_varint_decode_encoding(v >> 7, rest, (fuel - 1) as nat);
        assert(s[0] == ((v & 0x7f) | 0x80) as u8);
        assert(((((v & 0x7f) | 0x80) as u8) & 0x80) != 0) by (bit_vector);
        assert(s.skip(1) =~= varint_encoding(v >> 7) + rest);
        assert((((((v & 0x7f) | 0x80) as u8) & 0x7f) as u32 | ((v >> 7) << 7)) == v) by (bit_vector);
    }
}

/// Law: decoding the encoding of any 32-bit value — with any bytes at all
/// appended after it — yields exactly that value back and consumes exactly
/// the encoding, never an error.
pub proof fn lemma_varint_round_trip(v: u32, rest: Seq<u8>)
    ensures
        spec_decode_varint(varint_encoding(v) + rest, 5) == Ok::<(u32, int), ProbeError>(
            (v, varint_encoding(v).len() as int),
        ),
{
    lemma_varint_encoding_len(v);
    lemma_varint_decode_encoding(v, rest, 5);
}

proof fn lemma_varint_all_continue(s: Seq<u8>, fuel: nat)
    requires
        s.len() >= fuel,
        forall|i: int| 0 <= i < fuel ==> continues(#[trigger] s[i]),
    ensures
        spec_decode_varint(s, fuel) == Err::<(u32, int), ProbeError>(ProbeError::MalformedVarInt),
    decreases fuel,
{
    if fuel > 0 {
        assert(continues(s[0]));
        assert forall|i: int| 0 <= i < fuel - 1 implies continues(#[trigger] s.skip(1)[i]) by {
            assert(s.skip(1)[i] == s[i + 1]);
        }
        lemma_varint_all_continue(s.skip(1), (fuel - 1) as nat);
    }
}

/// Law: a stream whose first five bytes all carry the continuation bit is
/// rejected as `MalformedVarInt`, whatever follows them.
pub proof fn lemma_varint_too_long(s: Seq<u8>)
    requires
        s.len() >= 5,
        forall|i: int| 0 <= i < 5 ==> continues(#[trigger] s[i]),
    ensures
        spec_decode_varint(s, 5) == Err::<(u32, int), ProbeError>(ProbeError::MalformedVarInt),
{
    lemma_varint_all_continue(s, 5);
}

/// Encodes a signed 32-bit value through its unsigned bit pattern, one to
/// five bytes.
pub fn encode_varint(value: i32) -> (r: Vec<u8>)
    ensures
        r@ == varint_encoding(value as u32),
        1 <= r@.len() <= 5,
{
    let mut cur: u32 = #[verifier::truncate] (value as u32);
    let mut out: Vec<u8> = Vec::new();
    proof {
        assert(out@ + varint_encoding(cur) =~= varint_encoding(cur));
    }
    while cur >= 0x80
        invariant
            varint_encoding(value as u32) == out@ + varint_encoding(cur),
        decreases cur,
    {
        let ghost prev = out@;
        let ghost pcur = cur;
        proof {
            assert(((cur & 0x7f) | 0x80) < 256 && cur >> 7 < cur) by (bit_vector)
                requires
                    cur >= 0x80,
            ;
        }
        let b: u8 = ((cur & 0x7f) | 0x80) as u8;
        out.push(b);
        cur = cur >> 7;
        proof {
            assert(varint_encoding(pcur) == seq![b] + varint_encoding(cur));
            assert(out@ + varint_encoding(cur) =~= prev + varint_encoding(pcur));
        }
    }
    let ghost prev = out@;
    out.push(cur as u8);
    proof {
        assert(varint_encoding(cur) == seq![cur as u8]);
        assert(out@ =~= prev + varint_encoding(cur));
        lemma_varint_encoding_len(value as u32);
    }
    out
}

fn decode_varint_fuel(bytes: &[u8], start: usize, fuel: usize) -> (r: Result<
    (u32, usize),
    ProbeError,
>)
    requires
        start <= bytes@.len(),
    ensures
        ({
            let d = spec_decode_varint(bytes@.skip(start as int), fuel as nat);
            match r {
                Ok((v, n)) => d == Ok::<(u32, int), ProbeError>((v, n as int)) && 1 <= n <= fuel
                    && start + n <= bytes@.len(),
                Err(e) => d == Err::<(u32, int), ProbeError>(e),
            }
        }),
    decreases fuel,
{
    if fuel == 0 {
        return Err(ProbeError::MalformedVarInt);
    }
    if start >= bytes.len() {
        proof {
            assert(bytes@.skip(start as int).len() == 0);
        }
        return Err(ProbeError::IncompletePacket);
    }
    let b = bytes[start];
    proof {
        assert(bytes@.skip(start as int)[0] == b);
    }
    if b & 0x80 == 0 {
        Ok((((b & 0x7f) as u32), 1))
    } else {
        proof {
            assert(bytes@.skip(start as int).skip(1) =~= bytes@.skip(start as int + 1));
        }
        match decode_varint_fuel(bytes, start + 1, fuel - 1) {
            Ok((v, n)) => {
                let val = ((b & 0x7f) as u32) | (v << 7);
                Ok((val, n + 1))
            },
            Err(e) => Err(e),
        }
    }
}

/// Decodes one VarInt that starts at `bytes[start]`, reading at most five
/// bytes. Returns the value — as the signed reinterpretation of the 32-bit
/// pattern — and how many bytes it consumed; `MalformedVarInt` when a fifth
/// byte still carries the continuation bit, `IncompletePacket` when the
/// bytes run out while the continuation bit is still set.
pub fn decode_varint(bytes: &[u8], start: usize) -> (r: Result<(i32, usize), ProbeError>)
    requires
        start <= bytes@.len(),
    ensures
        ({
            let d = spec_decode_varint(bytes@.skip(start as int), 5);
            match r {
                Ok((v, n)) => d == Ok::<(u32, int), ProbeError>((v as u32, n as int)) && 1 <= n <= 5
                    && start + n <= bytes@.len(),
                Err(e) => d == Err::<(u32, int), ProbeError>(e),
            }
        }),
{
    match decode_varint_fuel(bytes, start, 5) {
        Ok((v, n)) => {
            let out: i32 = #[verifier::truncate] (v as i32);
            proof {
                assert((v as i32) as u32 == v) by (bit_vector);
            }
            Ok((out, n))
        },
        Err(e) => Err(e),
    }
}

} // verus!
