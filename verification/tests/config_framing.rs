use std::path::PathBuf;
use std::time::Duration;

use wattch::config::apply_config_file;
use wattch::{
    decode_frame, encode_frame, parse_duration, validate_interval_ns, validate_source_ids,
    PowercapSource, ServiceConfig, WattchError, MAX_FRAME_SIZE,
};

fn source(source_id: u32) -> PowercapSource {
    PowercapSource {
        source_id,
        name: format!("rapl:{source_id}"),
        kind: "rapl".to_string(),
        unit: "joule".to_string(),
        available: true,
        path: "/fake".to_string(),
        max_energy_uj: 10_000_000,
    }
}

#[test]
fn validate_interval_accepts_100us() {
    validate_interval_ns(100_000).expect("100 us should be accepted");
}

#[test]
fn validate_interval_rejects_below_100us() {
    let error = validate_interval_ns(99_999).expect_err("below 100 us should fail");
    assert!(matches!(error, WattchError::IntervalTooLow { .. }));
}

#[test]
fn validate_source_ids_accepts_existing_ids() {
    let sources = vec![source(1), source(2)];
    validate_source_ids(&[1, 2], &sources).expect("existing ids should be accepted");
}

#[test]
fn validate_source_ids_rejects_missing_ids() {
    let sources = vec![source(1)];
    let error = validate_source_ids(&[2], &sources).expect_err("missing id should fail");
    assert!(matches!(error, WattchError::SourceNotFound(2)));
}

#[test]
fn validate_source_ids_rejects_unavailable_source() {
    let mut unavailable = source(3);
    unavailable.available = false;
    let sources = vec![source(1), unavailable];
    let error = validate_source_ids(&[1, 3], &sources).expect_err("unavailable id should fail");
    assert!(matches!(error, WattchError::SourceUnavailable(3)));
}

#[test]
fn validate_source_ids_reports_first_problem() {
    let mut unavailable = source(3);
    unavailable.available = false;
    let sources = vec![source(1), unavailable];
    let error = validate_source_ids(&[3, 9], &sources).expect_err("first id decides");
    assert!(matches!(error, WattchError::SourceUnavailable(3)));
    let error = validate_source_ids(&[9, 3], &sources).expect_err("first id decides");
    assert!(matches!(error, WattchError::SourceNotFound(9)));
}

#[test]
fn parse_duration_ms() {
    assert_eq!(
        parse_duration("100ms").expect("duration"),
        Duration::from_millis(100)
    );
}

#[test]
fn parse_duration_seconds() {
    assert_eq!(
        parse_duration("5s").expect("duration"),
        Duration::from_secs(5)
    );
}

#[test]
fn parse_duration_minutes() {
    assert_eq!(
        parse_duration("2m").expect("duration"),
        Duration::from_secs(120)
    );
}

#[test]
fn parse_duration_rejects_missing_unit() {
    assert!(parse_duration("10").is_err());
}

#[test]
fn parse_duration_rejects_unknown_unit() {
    assert!(parse_duration("1h").is_err());
}

#[test]
fn parse_duration_messages() {
    let error = parse_duration("").expect_err("empty");
    assert_eq!(error.to_string(), "bad request: duration must not be empty");
    let error = parse_duration("1h").expect_err("unknown unit");
    assert_eq!(
        error.to_string(),
        "bad request: invalid duration \"1h\": expected suffix ms, s, or m"
    );
    let error = parse_duration("ms").expect_err("missing number");
    assert_eq!(
        error.to_string(),
        "bad request: invalid duration \"ms\": missing number"
    );
    let error = parse_duration("1xs").expect_err("bad number");
    assert_eq!(
        error.to_string(),
        "bad request: invalid duration \"1xs\": invalid digit found in string"
    );
    let error = parse_duration("99999999999999999999ms").expect_err("too large");
    assert_eq!(
        error.to_string(),
        "bad request: invalid duration \"99999999999999999999ms\": number too large to fit in target type"
    );
}

#[test]
fn parse_duration_accepts_plus_sign_and_zero() {
    assert_eq!(parse_duration("+7s").expect("duration"), Duration::from_secs(7));
    assert_eq!(parse_duration("0ms").expect("duration"), Duration::from_millis(0));
}

#[test]
fn config_defaults_to_root_service_socket() {
    let config = ServiceConfig {
        socket_uid: None,
        socket_gid: None,
        ..ServiceConfig::default()
    };

    assert_eq!(
        PathBuf::from(&config.socket_path),
        PathBuf::from("/run/wattch/wattch.sock")
    );
    assert_eq!(config.socket_mode, 0o600);
}

#[test]
fn config_parses_socket_path_owner_and_mode() {
    let mut config = ServiceConfig::default();
    apply_config_file(
        &mut config,
        r#"
            # service socket for root daemon and user CLI
            socket_path = "/tmp/custom-wattch.sock"
            socket_mode = 0600
            socket_uid = 1000
            socket_gid = 1000
            powercap_root = "/tmp/fake-powercap"
            "#,
    )
    .expect("parse config");

    assert_eq!(
        PathBuf::from(&config.socket_path),
        PathBuf::from("/tmp/custom-wattch.sock")
    );
    assert_eq!(config.socket_mode, 0o600);
    assert_eq!(config.socket_uid, Some(1000));
    assert_eq!(config.socket_gid, Some(1000));
    assert_eq!(
        PathBuf::from(&config.powercap_root),
        PathBuf::from("/tmp/fake-powercap")
    );
}

#[test]
fn config_reads_octal_modes_and_quotes() {
    let mut config = ServiceConfig::default();
    apply_config_file(
        &mut config,
        "socket_mode = 0o640\r\nsocket_path = '/x y'  # trailing comment\nunknown = 1\n\n",
    )
    .expect("parse config");
    assert_eq!(config.socket_mode, 0o640);
    assert_eq!(config.socket_path, "/x y");
    assert_eq!(config.socket_uid, None);
}

#[test]
fn config_rejects_line_without_equals() {
    let mut config = ServiceConfig::default();
    let error = apply_config_file(&mut config, "socket_uid = 7\n# fine\nnot a pair\nsocket_gid = 8")
        .expect_err("line 3 has no =");
    assert_eq!(
        error.to_string(),
        "bad request: invalid config line 3: expected key = value"
    );
    assert_eq!(config.socket_uid, Some(7));
    assert_eq!(config.socket_gid, None);
}

#[test]
fn config_rejects_bad_mode_and_ids() {
    let mut config = ServiceConfig::default();
    let error = apply_config_file(&mut config, "socket_mode = 0o9").expect_err("bad mode");
    assert_eq!(
        error.to_string(),
        "bad request: invalid socket_mode value \"9\": invalid digit found in string"
    );
    let error = apply_config_file(&mut config, "socket_mode = 0").expect_err("empty mode");
    assert_eq!(
        error.to_string(),
        "bad request: invalid socket_mode value \"\": cannot parse integer from empty string"
    );
    let error = apply_config_file(&mut config, "socket_uid = -1").expect_err("bad uid");
    assert_eq!(
        error.to_string(),
        "bad request: invalid socket_uid value \"-1\": invalid digit found in string"
    );
    let error = apply_config_file(&mut config, "socket_gid = 4294967296").expect_err("big gid");
    assert_eq!(
        error.to_string(),
        "bad request: invalid socket_gid value \"4294967296\": number too large to fit in target type"
    );
    assert_eq!(config, ServiceConfig::default());
}

#[test]
fn config_with_sudo_ids() {
    let config = ServiceConfig::with_sudo_ids(Some("1000"), Some("oops"));
    assert_eq!(config.socket_uid, Some(1000));
    assert_eq!(config.socket_gid, None);
    assert_eq!(config.socket_mode, 0o600);
    assert_eq!(config.powercap_root, "/sys/devices/virtual/powercap");
}

#[test]
fn config_resolve_lets_environment_override_file() {
    let config = ServiceConfig::resolve(
        Some("1"),
        None,
        Some("socket_path = /from/file\npowercap_root = /root/file\nsocket_gid = 5\n"),
        Some("/from/env"),
        None,
    )
    .expect("resolve");
    assert_eq!(config.socket_path, "/from/env");
    assert_eq!(config.powercap_root, "/root/file");
    assert_eq!(config.socket_uid, Some(1));
    assert_eq!(config.socket_gid, Some(5));

    let config = ServiceConfig::resolve(None, None, None, None, Some("/p")).expect("resolve");
    assert_eq!(config.socket_path, "/run/wattch/wattch.sock");
    assert_eq!(config.powercap_root, "/p");

    assert!(ServiceConfig::resolve(None, None, Some("bad line"), None, None).is_err());
}

#[test]
fn frame_rejects_too_large_payload() {
    let mut frame = Vec::new();
    frame.extend_from_slice(&((MAX_FRAME_SIZE as u32) + 1).to_le_bytes());

    let error = decode_frame(&frame).expect_err("oversized frame should fail");
    assert!(matches!(error, WattchError::FrameTooLarge { .. }));
}

#[test]
fn frame_rejects_truncated_payload() {
    let mut frame = Vec::new();
    frame.extend_from_slice(&8_u32.to_le_bytes());
    frame.extend_from_slice(&[1, 2, 3]);

    let error = decode_frame(&frame).expect_err("truncated frame should fail");
    assert!(matches!(error, WattchError::TruncatedPayload { .. }));
}

#[test]
fn frame_roundtrip_payload() {
    let payload = vec![8_u8, 42, 18, 9, 117, 110, 105, 116];
    let frame = encode_frame(&payload).expect("encode");
    assert_eq!(&frame[..4], &[8, 0, 0, 0]);
    assert_eq!(&frame[4..], &payload[..]);
    assert_eq!(decode_frame(&frame).expect("decode"), &payload[..]);
}

#[test]
fn frame_roundtrip_empty_and_largest_payload() {
    let empty = encode_frame(&[]).expect("encode");
    assert_eq!(&empty[..], &[0, 0, 0, 0]);
    assert_eq!(decode_frame(&empty).expect("decode"), &[] as &[u8]);

    let largest = vec![7_u8; MAX_FRAME_SIZE];
    let frame = encode_frame(&largest).expect("encode");
    assert_eq!(&frame[..4], &[0, 0, 16, 0]);
    assert_eq!(decode_frame(&frame).expect("decode").len(), MAX_FRAME_SIZE);
}

#[test]
fn frame_encode_rejects_too_large_payload() {
    let payload = vec![0_u8; MAX_FRAME_SIZE + 1];
    let error = encode_frame(&payload).expect_err("too large");
    assert!(matches!(
        error,
        WattchError::FrameTooLarge { size, max } if size == MAX_FRAME_SIZE + 1 && max == MAX_FRAME_SIZE
    ));
}

#[test]
fn frame_rejects_short_header_and_trailing_bytes() {
    let error = decode_frame(&[1, 0]).expect_err("short");
    assert!(matches!(
        error,
        WattchError::TruncatedPayload { expected: 4, actual: 2 }
    ));
    let error = decode_frame(&[1, 0, 0, 0, 5, 6]).expect_err("trailing");
    assert_eq!(
        error.to_string(),
        "bad request: frame contains trailing bytes after protobuf payload"
    );
}

#[test]
fn frame_header_length() {
    assert_eq!(wattch::frame_payload_len([1, 2, 0, 0]).expect("len"), 513);
    assert!(wattch::frame_payload_len([1, 0, 16, 0]).is_err());
}

#[test]
fn error_messages() {
    assert_eq!(
        WattchError::FrameTooLarge { size: 5, max: 4 }.to_string(),
        "frame payload too large: 5 bytes (max 4 bytes)"
    );
    assert_eq!(
        WattchError::TruncatedPayload { expected: 8, actual: 3 }.to_string(),
        "truncated frame payload: expected 8 bytes, got 3 bytes"
    );
    assert_eq!(WattchError::SourceNotFound(99).to_string(), "source not found: 99");
    assert_eq!(WattchError::SourceUnavailable(0).to_string(), "source unavailable: 0");
    assert_eq!(WattchError::StreamAlreadyRunning.to_string(), "stream already running");
    assert_eq!(WattchError::StreamNotRunning.to_string(), "stream not running");
    assert_eq!(
        WattchError::IntervalTooLow { interval_ns: 99_999, min_interval_ns: 100_000 }.to_string(),
        "sampling interval too low: 99999 ns (minimum 100000 ns)"
    );
    assert_eq!(WattchError::Internal("x".to_string()).to_string(), "internal error: x");
    let io = std::io::Error::new(std::io::ErrorKind::Other, "disk gone");
    assert_eq!(WattchError::Io(io).to_string(), "disk gone");
}
