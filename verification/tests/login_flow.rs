use std::io::Write;

use mcscan::errors::ProbeError;
use mcscan::login::check_login_protocol;
use mcscan::login::login_step;
use mcscan::login::ProtocolSession;
use mcscan::login::AUTH_OFFLINE;
use mcscan::login::AUTH_ONLINE;
use mcscan::login::AUTH_WHITELIST;

#[test]
fn disconnect_classifies_as_whitelisted() {
    let mut session = ProtocolSession::new();
    assert_eq!(login_step(&mut session, &[0x00, 0x05, b'n', b'o', b'p', b'e', b'!']),
        Ok(Some(AUTH_WHITELIST)));
    assert_eq!(session.compression_threshold, -1);
}

#[test]
fn encryption_request_classifies_as_online() {
    let mut session = ProtocolSession::new();
    assert_eq!(login_step(&mut session, &[0x01, 0xaa]), Ok(Some(AUTH_ONLINE)));
}

#[test]
fn login_success_classifies_as_offline() {
    let mut session = ProtocolSession::new();
    assert_eq!(login_step(&mut session, &[0x02]), Ok(Some(AUTH_OFFLINE)));
}

#[test]
fn set_compression_updates_the_session_and_continues() {
    let mut session = ProtocolSession::new();
    assert_eq!(login_step(&mut session, &[0x03, 0x80, 0x02]), Ok(None));
    assert_eq!(session.compression_threshold, 256);
}

#[test]
fn set_compression_threshold_zero_still_activates() {
    let mut session = ProtocolSession::new();
    assert_eq!(login_step(&mut session, &[0x03, 0x00]), Ok(None));
    assert_eq!(session.compression_threshold, 0);
}

#[test]
fn plugin_request_and_unknown_ids_are_skipped() {
    let mut session = ProtocolSession::new();
    assert_eq!(login_step(&mut session, &[0x04, 0x01, 0x02]), Ok(None));
    assert_eq!(login_step(&mut session, &[0x7f]), Ok(None));
    assert_eq!(session.compression_threshold, -1);
}

#[test]
fn empty_payload_is_skipped() {
    let mut session = ProtocolSession::new();
    assert_eq!(login_step(&mut session, &[]), Ok(None));
}

#[test]
fn after_set_compression_frames_carry_the_compressed_format() {
    let mut session = ProtocolSession::new();
    assert_eq!(login_step(&mut session, &[0x03, 0x00]), Ok(None));
    // declared length 0: the body, a login-success packet, is carried raw
    assert_eq!(login_step(&mut session, &[0x00, 0x02]), Ok(Some(AUTH_OFFLINE)));
}

#[test]
fn compressed_login_success_is_inflated_and_classified() {
    let mut session = ProtocolSession::new();
    assert_eq!(login_step(&mut session, &[0x03, 0x7f]), Ok(None));
    assert_eq!(session.compression_threshold, 127);
    let body = [0x02u8];
    let mut encoder =
        flate2::write::ZlibEncoder::new(Vec::new(), flate2::Compression::default());
    encoder.write_all(&body).expect("compress");
    let compressed = encoder.finish().expect("finish");
    let mut payload = vec![0x01u8];
    payload.extend_from_slice(&compressed);
    assert_eq!(login_step(&mut session, &payload), Ok(Some(AUTH_OFFLINE)));
}

#[test]
fn compressed_garbage_ends_the_probe_with_an_error() {
    let mut session = ProtocolSession::new();
    assert_eq!(login_step(&mut session, &[0x03, 0x00]), Ok(None));
    assert_eq!(login_step(&mut session, &[0x02, 0xff, 0xff]),
        Err(ProbeError::DecompressionFailure));
}

#[test]
fn login_protocol_gate_matches_the_minimum() {
    assert_eq!(check_login_protocol(46), Err(ProbeError::UnsupportedProtocolVersion));
    assert_eq!(check_login_protocol(5), Err(ProbeError::UnsupportedProtocolVersion));
    assert!(check_login_protocol(47).is_ok());
    assert!(check_login_protocol(763).is_ok());
}
