use mcscan::errors::ProbeError;
use mcscan::report::ScanResult;
use mcscan::report::StatusResponse;
use mcscan::report::VersionInfo;
use mcscan::scan::ScanRun;
use mcscan::target::found_line;
use mcscan::target::parse_target_line;
use mcscan::target::Target;

#[test]
fn target_without_port_gets_the_default() {
    let t = parse_target_line("example.com").expect("a target");
    assert_eq!(t.host, "example.com");
    assert_eq!(t.port, 25565);
}

#[test]
fn target_with_port_uses_it() {
    let t = parse_target_line("example.com:8080").expect("a target");
    assert_eq!(t.host, "example.com");
    assert_eq!(t.port, 8080);
}

#[test]
fn target_line_is_trimmed() {
    let t = parse_target_line("  example.com:25566 \t").expect("a target");
    assert_eq!(t.host, "example.com");
    assert_eq!(t.port, 25566);
}

#[test]
fn blank_lines_and_comments_are_skipped() {
    assert!(parse_target_line("").is_none());
    assert!(parse_target_line("   \t ").is_none());
    assert!(parse_target_line("# a comment").is_none());
    assert!(parse_target_line("  #indented").is_none());
}

#[test]
fn unusable_ports_fall_back_to_the_default() {
    assert_eq!(parse_target_line("h:notaport").expect("a target").port, 25565);
    assert_eq!(parse_target_line("h:70000").expect("a target").port, 25565);
    assert_eq!(parse_target_line("h:").expect("a target").port, 25565);
    assert_eq!(parse_target_line("h:0").expect("a target").port, 0);
    assert_eq!(parse_target_line("h:65535").expect("a target").port, 65535);
}

#[test]
fn host_splits_at_the_first_colon() {
    let t = parse_target_line("a:b:c").expect("a target");
    assert_eq!(t.host, "a");
    assert_eq!(t.port, 25565);
}

#[test]
fn found_line_omits_the_default_port() {
    let t = Target { host: "mc.example.net".to_string(), port: 25565 };
    assert_eq!(found_line(&t), "mc.example.net\n");
}

#[test]
fn found_line_names_any_other_port() {
    let t = Target { host: "mc.example.net".to_string(), port: 25566 };
    assert_eq!(found_line(&t), "mc.example.net:25566\n");
    let t = Target { host: "h".to_string(), port: 7 };
    assert_eq!(found_line(&t), "h:7\n");
    let t = Target { host: "h".to_string(), port: 65535 };
    assert_eq!(found_line(&t), "h:65535\n");
    let t = Target { host: "h".to_string(), port: 0 };
    assert_eq!(found_line(&t), "h:0\n");
}

#[test]
fn admission_never_exceeds_the_limit() {
    let mut run = ScanRun::new(2, 5);
    assert!(run.try_admit());
    assert!(run.try_admit());
    assert!(!run.try_admit()); // both slots taken
    run.record(ScanResult::failed("a".to_string(), 25565, "timeout".to_string()));
    assert!(run.try_admit()); // a slot freed
    assert!(!run.try_admit());
}

#[test]
fn every_target_gets_exactly_one_result() {
    let mut run = ScanRun::new(3, 7);
    let mut produced = 0;
    loop {
        while run.try_admit() {
            run.record(ScanResult::failed("h".to_string(), 25565, "x".to_string()));
            produced += 1;
        }
        if produced == 7 {
            break;
        }
    }
    assert!(!run.try_admit());
    assert_eq!(run.results.len(), 7);
}

#[test]
fn empty_target_list_finishes_with_no_results() {
    let mut run = ScanRun::new(4, 0);
    assert!(!run.try_admit());
    assert_eq!(run.results.len(), 0);
}

#[test]
fn zero_limit_admits_nothing() {
    let mut run = ScanRun::new(0, 3);
    assert!(!run.try_admit());
}

#[test]
fn failed_result_carries_only_the_error() {
    let r = ScanResult::failed("203.0.113.9".to_string(), 25565,
        ProbeError::ConnectFailure.message().to_string());
    assert_eq!(r.ip, "203.0.113.9");
    assert_eq!(r.port, 25565);
    assert_eq!(r.error.as_deref(), Some("connection failed"));
    assert!(r.motd.is_none());
    assert!(r.version.is_none());
    assert!(r.protocol.is_none());
    assert!(r.max_players.is_none());
    assert!(r.online_players.is_none());
    assert!(r.players.is_none());
    assert!(r.favicon.is_none());
    assert!(r.auth_mode.is_none());
}

#[test]
fn status_result_maps_the_response_fields() {
    let response = StatusResponse {
        version: Some(VersionInfo { name: "1.20.1".to_string(), protocol: 763 }),
        players: None,
        description: None,
        favicon: Some("data:image/png;base64,AAAA".to_string()),
    };
    let r = ScanResult::from_status("mc.example".to_string(), 25565, response, Some(1));
    assert!(r.error.is_none());
    assert_eq!(r.version.as_deref(), Some("1.20.1"));
    assert_eq!(r.protocol, Some(763));
    assert_eq!(r.auth_mode, Some(1));
    assert_eq!(r.favicon.as_deref(), Some("data:image/png;base64,AAAA"));
    assert!(r.max_players.is_none());
    assert!(r.players.is_none());
    assert!(r.motd.is_none());
}

#[test]
fn error_messages_name_each_kind() {
    assert_eq!(ProbeError::Timeout.message(), "timeout");
    assert_eq!(ProbeError::MalformedVarInt.message(), "VarInt too long");
    assert_eq!(ProbeError::IncompletePacket.message(), "incomplete packet");
    assert_eq!(ProbeError::DecompressionFailure.message(), "decompression failed");
    assert_eq!(ProbeError::JsonParseFailure.message(), "invalid status JSON");
    assert_eq!(ProbeError::UnsupportedProtocolVersion.message(), "protocol version too old");
}
