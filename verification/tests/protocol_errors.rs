use freezeit_daemon::{
    app::error::DaemonError,
    protocol::xposed::{
        encode_frame, parse_foreground_uid_payload, parse_frame, XposedCommand,
        FREEZEIT_COMMAND_BASE, MAX_PAYLOAD_LEN,
    },
    sys::{cgroup::parse_freeze_state, signal::signal_target_check},
};

#[test]
fn daemon_error_messages_carry_their_kind() {
    assert_eq!(DaemonError::config("bad").message(), "config error: bad");
    assert_eq!(DaemonError::protocol("bad").message(), "protocol error: bad");
    assert_eq!(DaemonError::system("bad").message(), "system error: bad");
    let io = DaemonError::from(std::io::Error::new(std::io::ErrorKind::Other, "disk gone"));
    assert_eq!(io.message(), "io error: disk gone");
    assert_eq!(io.source().map(|f| f.permission_denied), Some(false));
    assert_eq!(io.source().map(|f| f.text.as_str()), Some("disk gone"));
    let denied = DaemonError::from(std::io::Error::new(
        std::io::ErrorKind::PermissionDenied,
        "no access",
    ));
    assert_eq!(denied.source().map(|f| f.permission_denied), Some(true));
    assert_eq!(denied.message(), "io error: no access");
    let built = DaemonError::io(true, "no access");
    assert_eq!(built.message(), "io error: no access");
    assert_eq!(built.source().map(|f| f.permission_denied), Some(true));
    assert!(DaemonError::config("bad").source().is_none());
}

#[test]
fn frames_shorter_than_the_header_or_of_wrong_length_are_rejected() {
    let error = parse_frame(&[1, 2, 3]).expect_err("short");
    assert_eq!(error.message(), "protocol error: xposed frame header is incomplete");

    let mut bytes = Vec::new();
    bytes.extend_from_slice(&XposedCommand::GetXpLog.code().to_le_bytes());
    bytes.extend_from_slice(&3_i32.to_le_bytes());
    bytes.push(1);
    let error = parse_frame(&bytes).expect_err("too short");
    assert_eq!(
        error.message(),
        "protocol error: xposed frame length mismatch: expected 11, got 9"
    );

    let mut bytes = Vec::new();
    bytes.extend_from_slice(&XposedCommand::GetXpLog.code().to_le_bytes());
    bytes.extend_from_slice(&((MAX_PAYLOAD_LEN as i32) + 1).to_le_bytes());
    let error = parse_frame(&bytes).expect_err("too large");
    assert_eq!(error.message(), "protocol error: xposed frame payload is too large");
}

#[test]
fn unknown_command_codes_are_rejected() {
    let mut bytes = Vec::new();
    bytes.extend_from_slice(&(FREEZEIT_COMMAND_BASE + 5).to_le_bytes());
    bytes.extend_from_slice(&0_i32.to_le_bytes());
    let error = parse_frame(&bytes).expect_err("unknown command");
    assert_eq!(
        error.message(),
        format!("protocol error: unknown xposed command {}", FREEZEIT_COMMAND_BASE + 5)
    );
    assert!(XposedCommand::from_code(FREEZEIT_COMMAND_BASE + 60).is_ok());
    assert!(XposedCommand::from_code(-7).is_err());
}

#[test]
fn encoded_frames_have_code_length_and_payload() {
    let bytes = encode_frame(XposedCommand::SetConfig, &[9, 8]).expect("frame");
    let mut expected = Vec::new();
    expected.extend_from_slice(&(FREEZEIT_COMMAND_BASE + 20).to_le_bytes());
    expected.extend_from_slice(&2_i32.to_le_bytes());
    expected.extend_from_slice(&[9, 8]);
    assert_eq!(bytes, expected);

    let big = vec![0_u8; MAX_PAYLOAD_LEN + 1];
    let error = encode_frame(XposedCommand::SetConfig, &big).expect_err("too large");
    assert_eq!(error.message(), "protocol error: xposed frame payload is too large");
}

#[test]
fn foreground_payload_errors_name_the_problem() {
    let error = parse_foreground_uid_payload(&[1, 0]).expect_err("no count");
    assert_eq!(error.message(), "protocol error: foreground uid payload count is missing");

    let error = parse_foreground_uid_payload(&(-1_i32).to_le_bytes()).expect_err("negative");
    assert_eq!(error.message(), "protocol error: foreground uid payload count is negative");

    let mut payload = Vec::new();
    payload.extend_from_slice(&2_i32.to_le_bytes());
    payload.extend_from_slice(&10_555_i32.to_le_bytes());
    let error = parse_foreground_uid_payload(&payload).expect_err("short");
    assert_eq!(
        error.message(),
        "protocol error: foreground uid payload length mismatch: expected at least 12, got 8"
    );

    let mut payload = Vec::new();
    payload.extend_from_slice(&1_i32.to_le_bytes());
    payload.extend_from_slice(&10_555_i32.to_le_bytes());
    payload.push(0xaa);
    assert_eq!(parse_foreground_uid_payload(&payload).expect("extra bytes ignored"), vec![10_555]);
}

#[test]
fn freeze_state_text_and_signal_targets_are_checked() {
    assert!(parse_freeze_state(" 1\n").is_ok());
    let error = parse_freeze_state(" 2 ").expect_err("unknown");
    assert_eq!(error.message(), "system error: unknown cgroup.freeze state 2");

    assert!(signal_target_check(42).is_ok());
    let error = signal_target_check(0).expect_err("pid 0");
    assert_eq!(error.message(), "system error: refusing to signal non-positive pid");
}
