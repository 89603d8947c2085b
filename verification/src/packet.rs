//! Builders for the packets this client sends: the handshake, the status
//! request and the version-adaptive login-start packet, together with the
//! length-prefixed framing and string fields they are made of.

use vstd::prelude::*;
use vstd::string::StrSliceExecFns;
use vstd::string::StringSliceAdditionalSpecFns;

use crate::varint::encode_varint;
use crate::varint::lemma_varint_encoding_len;
use crate::varint::varint_encoding;

verus! {

/// The protocol version this crate drives login with when none is known.
pub const PROTOCOL_VERSION: i32 = 763;

/// The sentinel protocol version sent in existence-only status probes.
pub const MAX_PROTOCOL_VERSION: i32 = 800;

/// The oldest protocol version whose login-start packet this crate can
/// build; login is never attempted below it.
pub const MIN_PROTOCOL_VERSION: i32 = 47;

/// The port assumed when a target names none.
pub const DEFAULT_PORT: u16 = 25565;

/// A string field on the wire: the byte length as a VarInt, then the bytes.
pub open spec fn string_field(sbytes: Seq<u8>) -> Seq<u8> {
    varint_encoding(sbytes.len() as u32) + sbytes
}

/// A whole frame: the payload length as a VarInt, then the payload.
pub open spec fn framed(payload: Seq<u8>) -> Seq<u8> {
    varint_encoding(payload.len() as u32) + payload
}

/// A 16-bit value in big-endian byte order.
pub open spec fn be16(x: u16) -> Seq<u8> {
    seq![(x >> 8) as u8, (x & 0xff) as u8]
}

/// Appends every byte of `src` to `dst`.
pub fn push_bytes(dst: &mut Vec<u8>, src: &[u8])
    ensures
        final(dst)@ == old(dst)@ + src@,
{
    proof {
        assert(dst@ + src@.subrange(0, 0) =~= dst@);
    }
    let mut i: usize = 0;
    while i < src.len()
        invariant
            i <= src@.len(),
            dst@ == old(dst)@ + src@.subrange(0, i as int),
        decreases src@.len() - i,
    {
        let ghost prev = dst@;
        dst.push(src[i]);
        proof {
            assert(src@.subrange(0, i as int + 1) =~= src@.subrange(0, i as int).push(
                src@[i as int],
            ));
            assert(dst@ =~= old(dst)@ + src@.subrange(0, i as int + 1));
        }
        i += 1;
    }
    proof {
        assert(src@.subrange(0, src@.len() as int) =~= src@);
    }
}

/// Prepends the VarInt-encoded length of `payload` to it.
pub fn frame_packet(payload: &[u8]) -> (r: Vec<u8>)
    requires
        payload@.len() < 0x8000_0000,
    ensures
        r@ == framed(payload@),
{
    let len = payload.len();
    let mut out = encode_varint(len as i32);
    push_bytes(&mut out, payload);
    proof {
        assert((len as i32) as u32 == payload@.len() as u32);
    }
    out
}

/// A VarInt-length-prefixed UTF-8 string field.
pub fn encode_string(s: &str) -> (r: Vec<u8>)
    requires
        s.spec_bytes().len() < 0x8000_0000,
    ensures
        r@ == string_field(s.spec_bytes()),
{
    let bytes = s.as_bytes_vec();
    let mut out = encode_varint(bytes.len() as i32);
    push_bytes(&mut out, bytes.as_slice());
    proof {
        assert((bytes@.len() as i32) as u32 == s.spec_bytes().len() as u32);
    }
    out
}

/// The handshake payload: packet id 0, the protocol version, the host as a
/// string field, the port big-endian, then the next-state intent.
pub open spec fn handshake_payload(
    host_bytes: Seq<u8>,
    port: u16,
    next_state: u32,
    protocol: u32,
) -> Seq<u8> {
    varint_encoding(0) + varint_encoding(protocol) + string_field(host_bytes) + be16(port)
        + varint_encoding(next_state)
}

/// Builds the length-framed handshake packet that opens every probe:
/// next-state 1 asks for status, 2 for login.
pub fn create_handshake_packet(host: &str, port: u16, next_state: i32, protocol: i32) -> (r: Vec<
    u8,
>)
    requires
        host.spec_bytes().len() < 0x7fff_0000,
    ensures
        r@ == framed(
            handshake_payload(host.spec_bytes(), port, next_state as u32, protocol as u32),
        ),
{
    let mut data = encode_varint(0x00);
    let mut part = encode_varint(protocol);
    data.append(&mut part);
    let mut hostf = encode_string(host);
    data.append(&mut hostf);
    proof {
        assert((port >> 8) < 256 && (port & 0xff) < 256) by (bit_vector);
    }
    data.push((port >> 8) as u8);
    data.push((port & 0xff) as u8);
    let mut ns = encode_varint(next_state);
    data.append(&mut ns);
    proof {
        lemma_varint_encoding_len(0);
        lemma_varint_encoding_len(protocol as u32);
        lemma_varint_encoding_len(next_state as u32);
        lemma_varint_encoding_len(host.spec_bytes().len() as u32);
        assert(data@ =~= handshake_payload(
            host.spec_bytes(),
            port,
            next_state as u32,
            protocol as u32,
        ));
    }
    frame_packet(data.as_slice())
}

/// The status-request packet, fixed bytes on every probe: the one-byte
/// payload `0x00` (the status-request packet id) under a length prefix.
pub fn create_status_request() -> (r: Vec<u8>)
    ensures
        r@ == framed(seq![0x00u8]),
        r@ == seq![0x01u8, 0x00u8],
{
    let mut v: Vec<u8> = Vec::new();
    v.push(0x01);
    v.push(0x00);
    proof {
        assert(v@ =~= seq![0x01u8, 0x00u8]);
        assert(framed(seq![0x00u8]) =~= seq![0x01u8, 0x00u8]);
    }
    v
}

/// The value of one hexadecimal digit, or `None` for any other character.
pub open spec fn hex_val(c: char) -> Option<u8> {
    let u = c as u32;
    if 48 <= u && u <= 57 {
        Some((u - 48) as u8)
    } else if 97 <= u && u <= 102 {
        Some((u - 87) as u8)
    } else if 65 <= u && u <= 70 {
        Some((u - 55) as u8)
    } else {
        None
    }
}

/// The byte one character pair stands for: two hex digits, or zero when
/// either character is not a hex digit.
pub open spec fn hex_pair_byte(hi: char, lo: char) -> u8 {
    match (hex_val(hi), hex_val(lo)) {
        (Some(h), Some(l)) => (16 * h + l) as u8,
        _ => 0,
    }
}

/// `s` with every '-' removed.
pub open spec fn strip_dashes(s: Seq<char>) -> Seq<char>
    decreases s.len(),
{
    if s.len() == 0 {
        Seq::empty()
    } else if s.last() == '-' {
        strip_dashes(s.drop_last())
    } else {
        strip_dashes(s.drop_last()).push(s.last())
    }
}

pub proof fn lemma_strip_dashes_len(s: Seq<char>)
    ensures
        strip_dashes(s).len() <= s.len(),
    decreases s.len(),
{
    if s.len() > 0 {
        lemma_strip_dashes_len(s.drop_last());
    }
}

/// The bytes a textual UUID stands for: hyphens stripped, then each pair of
/// remaining characters read as one hex byte, with malformed pairs reading
/// as zero; a trailing unpaired character is ignored.
pub open spec fn spec_parse_uuid(s: Seq<char>) -> Seq<u8> {
    let hex = strip_dashes(s);
    Seq::new((hex.len() / 2) as nat, |i: int| hex_pair_byte(hex[2 * i], hex[2 * i + 1]))
}

fn hex_digit(c: char) -> (r: Option<u8>)
    ensures
        r == hex_val(c),
        r matches Some(h) ==> h < 16,
{
    let u = c as u32;
    if 48 <= u && u <= 57 {
        Some((u - 48) as u8)
    } else if 97 <= u && u <= 102 {
        Some((u - 87) as u8)
    } else if 65 <= u && u <= 70 {
        Some((u - 55) as u8)
    } else {
        None
    }
}

fn hex_byte(hi: char, lo: char) -> (b: u8)
    ensures
        b == hex_pair_byte(hi, lo),
{
    match (hex_digit(hi), hex_digit(lo)) {
        (Some(h), Some(l)) => 16 * h + l,
        _ => 0,
    }
}

/// Parses a (canonically hyphenated) textual UUID into raw bytes: hyphens
/// are stripped and each remaining character pair is decoded as one hex
/// byte, malformed pairs decoding to zero so that a placeholder identity
/// never fails a probe.
pub fn parse_uuid(uuid: &str) -> (r: Vec<u8>)
    ensures
        r@ == spec_parse_uuid(uuid@),
{
    let n = uuid.unicode_len();
    let mut hex: Vec<char> = Vec::new();
    let mut i: usize = 0;
    proof {
        assert(uuid@.subrange(0, 0) =~= Seq::<char>::empty());
    }
    while i < n
        invariant
            i <= n,
            n == uuid@.len(),
            hex@ == strip_dashes(uuid@.subrange(0, i as int)),
        decreases n - i,
    {
        let c = uuid.get_char(i);
        proof {
            assert(uuid@.subrange(0, i as int + 1).drop_last() =~= uuid@.subrange(0, i as int));
            assert(uuid@.subrange(0, i as int + 1).last() == c);
        }
        if !(c == '-') {
            hex.push(c);
        }
        i += 1;
    }
    proof {
        assert(uuid@.subrange(0, n as int) =~= uuid@);
    }
    let m = hex.len();
    let mut out: Vec<u8> = Vec::new();
    let mut j: usize = 0;
    while j < m / 2
        invariant
            j <= m / 2,
            m == hex@.len(),
            hex@ == strip_dashes(uuid@),
            out@.len() == j,
            forall|k: int|
                0 <= k < j ==> out@[k] == hex_pair_byte(hex@[2 * k], hex@[2 * k + 1]),
        decreases m / 2 - j,
    {
        let hi = hex[2 * j];
        let lo = hex[2 * j + 1];
        out.push(hex_byte(hi, lo));
        j += 1;
    }
    proof {
        assert(out@ =~= spec_parse_uuid(uuid@));
    }
    out
}

/// The version-dependent trailer of a login-start payload, after the
/// username string field: nothing through protocol 758, a lone no-UUID
/// marker byte for 759, marker byte plus presence byte plus the raw UUID
/// for 760, presence byte plus the raw UUID for 761 through 763, and the
/// raw UUID alone from 764 on.
pub open spec fn login_trailer(protocol: int, uuid_bytes: Seq<u8>) -> Seq<u8> {
    if protocol <= 758 {
        Seq::empty()
    } else if protocol == 759 {
        seq![0x00u8]
    } else if protocol == 760 {
        seq![0x00u8, 0x01u8] + uuid_bytes
    } else if protocol <= 763 {
        seq![0x01u8] + uuid_bytes
    } else {
        uuid_bytes
    }
}

/// The login-start payload: packet id 0, the username string field, then
/// the version-dependent trailer.
pub open spec fn login_start_payload(
    username_bytes: Seq<u8>,
    uuid_chars: Seq<char>,
    protocol: int,
) -> Seq<u8> {
    varint_encoding(0) + string_field(username_bytes) + login_trailer(
        protocol,
        spec_parse_uuid(uuid_chars),
    )
}

/// Builds the length-framed login-start packet for `protocol`, which must
/// be at least `MIN_PROTOCOL_VERSION`: older versions predate this packet's
/// layout and login is never attempted on them.
pub fn create_login_start(username: &str, uuid: &str, protocol: i32) -> (r: Vec<u8>)
    requires
        protocol >= MIN_PROTOCOL_VERSION,
        username.spec_bytes().len() < 0x4000_0000,
        uuid@.len() < 0x4000_0000,
    ensures
        r@ == framed(login_start_payload(username.spec_bytes(), uuid@, protocol as int)),
{
    let mut data = encode_varint(0x00);
    let mut uf = encode_string(username);
    data.append(&mut uf);
    if protocol <= 758 {
    } else if protocol == 759 {
        data.push(0x00);
    } else if protocol == 760 {
        data.push(0x00);
        data.push(0x01);
        let mut ub = parse_uuid(uuid);
        data.append(&mut ub);
    } else if protocol <= 763 {
        data.push(0x01);
        let mut ub = parse_uuid(uuid);
        data.append(&mut ub);
    } else {
        let mut ub = parse_uuid(uuid);
        data.append(&mut ub);
    }
    proof {
        lemma_varint_encoding_len(0);
        lemma_varint_encoding_len(username.spec_bytes().len() as u32);
        lemma_strip_dashes_len(uuid@);
        assert(data@ =~= login_start_payload(username.spec_bytes(), uuid@, protocol as int));
    }
    frame_packet(data.as_slice())
}

} // verus!
