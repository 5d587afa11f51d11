use freezeit_daemon::{
    app::controller::note_hook_config_sync,
    protocol::manager_v1::ReadOnlyState,
    sys::socket::record_hook_health,
};

/// The home status card shows the daemon's hook health label; the health
/// JSON document is kept apart for the diagnostics command.
#[test]
fn home_status_card_does_not_render_raw_health_json() {
    let mut state = ReadOnlyState::default();
    record_hook_health(
        &mut state,
        Ok(r#"{"status":"active","system_server_ready":true}"#.to_owned()),
    );

    assert!(!state.hook_health.contains('{'));
    assert_eq!(state.hook_health, "active");
    assert_eq!(
        state.health_report_json,
        r#"{"status":"active","daemonReady":true,"hookHealth":"active"}"#
    );
}

/// The log page switches between the daemon's work log and the hook's log;
/// neither of them is the JSON operation log.
#[test]
fn logcat_switches_between_work_log_and_xposed_log_not_json_diagnostics() {
    let mut state = ReadOnlyState {
        log: "daemon active: apps=0 settings=0 android=16 kernel=6.6\n".to_owned(),
        operation_log_json: r#"{"operations":[]}"#.to_owned(),
        ..ReadOnlyState::default()
    };
    record_hook_health(&mut state, Ok("hook ready\nsystem_server attached\n".to_owned()));
    note_hook_config_sync(&mut state, true);

    assert_eq!(state.xp_log, "hook ready\nsystem_server attached\n");
    assert_eq!(
        state.log,
        "daemon active: apps=0 settings=0 android=16 kernel=6.6\nhook config synced: managed_apps=0 settings=0\n"
    );
    assert!(!state.log.contains(&state.operation_log_json));
    assert!(!state.xp_log.contains(&state.operation_log_json));
}
