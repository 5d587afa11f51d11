use freezeit_daemon::{
    app::error::DaemonError,
    protocol::manager_v1::{ManagerAppConfigRecord, ReadOnlyState},
    sys::{
        socket::{control_uids, record_hook_health, should_run_control_pass},
        xposed_bridge::{response_text, set_config_accepted, XPOSED_SOCKET_ABSTRACT_NAME},
    },
};

fn sample_state() -> ReadOnlyState {
    ReadOnlyState {
        app_config: vec![ManagerAppConfigRecord {
            uid: 10_123,
            mode: 30,
            permissive: false,
        }],
        log: "kept\n".to_owned(),
        ..ReadOnlyState::default()
    }
}

#[test]
fn active_hook_payload_allows_control() {
    let mut state = sample_state();
    let payload = r#"{"status":"active","system_server_ready":true}"#;
    record_hook_health(&mut state, Ok(payload.to_owned()));

    assert_eq!(state.daemon_health, "active");
    assert_eq!(state.hook_health, "active");
    assert_eq!(state.xp_log, payload);
    assert_eq!(
        state.health_report_json,
        r#"{"status":"active","daemonReady":true,"hookHealth":"active"}"#
    );
    assert_eq!(state.self_check_json, r#"{"controlAllowed":true}"#);
    assert_eq!(state.log, "kept\n");
    assert!(should_run_control_pass(&state));
}

#[test]
fn missing_hook_bridge_blocks_control() {
    let mut state = sample_state();
    record_hook_health(
        &mut state,
        Err(DaemonError::system("connect failed: No such file or directory")),
    );

    assert_eq!(state.hook_health, "missing");
    assert_eq!(state.xp_log, "hook bridge missing");
    assert_eq!(
        state.health_report_json,
        r#"{"status":"degraded","daemonReady":true,"hookHealth":"missing"}"#
    );
    assert_eq!(state.self_check_json, r#"{"controlAllowed":false}"#);
    assert!(!should_run_control_pass(&state));
}

#[test]
fn other_bridge_failures_and_unknown_payloads_are_degraded() {
    let mut state = sample_state();
    record_hook_health(&mut state, Err(DaemonError::protocol("timed out")));
    assert_eq!(state.hook_health, "degraded");
    assert_eq!(state.xp_log, "hook bridge degraded");

    let mut state = sample_state();
    record_hook_health(&mut state, Ok("garbage".to_owned()));
    assert_eq!(state.hook_health, "degraded");
    assert_eq!(state.xp_log, "garbage");
    assert_eq!(state.self_check_json, r#"{"controlAllowed":false}"#);
}

#[test]
fn set_config_answer_is_accepted_only_for_value_two() {
    assert!(set_config_accepted(&[2, 0, 0, 0]).expect("answer"));
    assert!(!set_config_accepted(&[1, 0, 0, 0, 9]).expect("answer"));
    assert!(!set_config_accepted(&[2, 0, 0, 1]).expect("answer"));
    let error = set_config_accepted(&[2, 0]).expect_err("short answer");
    assert_eq!(
        error.message(),
        "protocol error: xposed set config response header is incomplete"
    );
}

#[test]
fn hook_answers_must_be_utf8_text() {
    assert_eq!(response_text("héllo".as_bytes()).expect("text"), "héllo");
    let error = response_text(&[0xff, 0xfe]).expect_err("not utf-8");
    assert!(matches!(&error, DaemonError::Protocol(m) if m.starts_with("xposed response is not utf-8: ")));
    assert!(error.message().len() > "protocol error: xposed response is not utf-8: ".len());
}

#[test]
fn hook_socket_name_and_default_state() {
    assert_eq!(XPOSED_SOCKET_ABSTRACT_NAME, "FreezeitXposedServer");
    let state = ReadOnlyState::default();
    assert!(state.hook_health.is_empty());
    assert!(state.app_config.is_empty());
    assert!(!state.hook_config_synced);
    assert!(!should_run_control_pass(&state));
}

#[test]
fn control_uids_are_the_controlled_uids_once_in_order() {
    let records = [
        ManagerAppConfigRecord { uid: 10_300, mode: 30, permissive: false },
        ManagerAppConfigRecord { uid: 10_100, mode: 40, permissive: false },
        ManagerAppConfigRecord { uid: 10_200, mode: 10, permissive: true },
        ManagerAppConfigRecord { uid: 10_300, mode: 21, permissive: false },
        ManagerAppConfigRecord { uid: 10_050, mode: 31, permissive: false },
        ManagerAppConfigRecord { uid: 10_400, mode: 50, permissive: false },
    ];
    assert_eq!(control_uids(&records), vec![10_050, 10_200, 10_300]);
    assert!(control_uids(&[]).is_empty());
}

#[test]
fn hook_socket_io_errors_set_the_health_label() {
    let mut state = sample_state();
    record_hook_health(
        &mut state,
        Err(DaemonError::from(std::io::Error::new(
            std::io::ErrorKind::NotFound,
            "No such file or directory (os error 2)",
        ))),
    );
    assert_eq!(state.hook_health, "missing");
    assert_eq!(state.xp_log, "hook bridge missing");

    record_hook_health(&mut state, Err(DaemonError::io(false, "Broken pipe")));
    assert_eq!(state.hook_health, "degraded");
    assert_eq!(state.xp_log, "hook bridge degraded");
}
