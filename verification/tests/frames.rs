use std::io::Write;

use mcscan::errors::ProbeError;
use mcscan::frame::decode_compressed_frame;
use mcscan::status::extract_status_json;

fn zlib_compress(data: &[u8]) -> Vec<u8> {
    let mut encoder =
        flate2::write::ZlibEncoder::new(Vec::new(), flate2::Compression::default());
    encoder.write_all(data).expect("compress");
    encoder.finish().expect("finish")
}

#[test]
fn compressed_frame_zero_length_passes_body_through() {
    let payload = [0x00u8, 0x02, 0xaa, 0xbb];
    assert_eq!(decode_compressed_frame(&payload), Ok(vec![0x02, 0xaa, 0xbb]));
}

#[test]
fn compressed_frame_inflates_to_the_declared_length() {
    let body = [0x02u8];
    let mut payload = vec![0x01u8]; // declared uncompressed length: 1
    payload.extend_from_slice(&zlib_compress(&body));
    assert_eq!(decode_compressed_frame(&payload), Ok(vec![0x02]));
}

#[test]
fn compressed_frame_longer_body_round_trips() {
    let body: Vec<u8> = (0u8..200).collect();
    let mut payload = vec![0xc8, 0x01]; // declared length: 200 as a VarInt
    payload.extend_from_slice(&zlib_compress(&body));
    assert_eq!(decode_compressed_frame(&payload), Ok(body));
}

#[test]
fn compressed_frame_wrong_declared_length_fails() {
    let body = [0x02u8];
    let mut payload = vec![0x05u8]; // declares 5, inflates to 1
    payload.extend_from_slice(&zlib_compress(&body));
    assert_eq!(decode_compressed_frame(&payload), Err(ProbeError::DecompressionFailure));
}

#[test]
fn compressed_frame_invalid_zlib_fails() {
    let payload = [0x01u8, 0xff, 0xff, 0xff];
    assert_eq!(decode_compressed_frame(&payload), Err(ProbeError::DecompressionFailure));
}

#[test]
fn compressed_frame_malformed_length_varint_fails() {
    let payload = [0x80u8, 0x80, 0x80, 0x80, 0x80, 0x80];
    assert_eq!(decode_compressed_frame(&payload), Err(ProbeError::MalformedVarInt));
}

#[test]
fn compressed_frame_empty_payload_is_incomplete() {
    assert_eq!(decode_compressed_frame(&[]), Err(ProbeError::IncompletePacket));
}

#[test]
fn status_json_is_extracted_exactly() {
    let payload = [0x00u8, 0x02, b'{', b'}'];
    assert_eq!(extract_status_json(&payload), Ok(vec![b'{', b'}']));
}

#[test]
fn status_json_ignores_trailing_bytes() {
    let payload = [0x00u8, 0x02, b'{', b'}', 0xaa, 0xbb];
    assert_eq!(extract_status_json(&payload), Ok(vec![b'{', b'}']));
}

#[test]
fn status_json_with_multi_byte_lengths() {
    let body = vec![b'x'; 300];
    let mut payload = vec![0x00u8, 0xac, 0x02]; // id 0, VarInt(300)
    payload.extend_from_slice(&body);
    assert_eq!(extract_status_json(&payload), Ok(body));
}

#[test]
fn status_json_declared_past_the_end_is_incomplete() {
    let payload = [0x00u8, 0x05, b'{'];
    assert_eq!(extract_status_json(&payload), Err(ProbeError::IncompletePacket));
}

#[test]
fn status_json_malformed_length_is_rejected() {
    let payload = [0x00u8, 0x80, 0x80, 0x80, 0x80, 0x80, 0x00];
    assert_eq!(extract_status_json(&payload), Err(ProbeError::MalformedVarInt));
}
