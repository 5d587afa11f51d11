use freezeit_daemon::{
    app::{
        controller::{
            load_policy_with_retries, retry_outcome, run_control_pass,
            run_control_pass_with_settings, ControlStep, RuntimeControlState,
        },
        error::DaemonError,
    },
    config::loader::{DaemonPaths, LoadedPolicyFiles},
    domain::{
        operation::{ControlAction, OperationResult},
        runtime::{ControlState, ProcessState, RuntimeProcess},
    },
    protocol::{
        manager_v1::ManagerAppConfigRecord,
        xposed::{classify_bridge_error, HookBridgeStatus},
    },
};

fn process() -> RuntimeProcess {
    RuntimeProcess {
        pid: 123,
        uid: 10_123,
        package_name: "com.example.app".to_owned(),
        process_name: "com.example.app".to_owned(),
        proc_state: ProcessState::Cached,
        control_state: ControlState::Running,
        cgroup_freeze_path: None,
        binder_state: None,
        last_seen_at_ms: 0,
    }
}

fn record(uid: u32, mode: i32) -> ManagerAppConfigRecord {
    ManagerAppConfigRecord { uid, mode, permissive: false }
}

#[test]
fn missing_hook_bridge_is_not_ready_for_control() {
    let bridge = classify_bridge_error(&DaemonError::system("Connection refused"));
    assert!(matches!(bridge, HookBridgeStatus::Missing(_)));
    assert!(!bridge.is_ready_for_control());
    assert_eq!(bridge.health_label(), "missing");
}

#[test]
fn pass_without_control_records_makes_no_call_and_changes_nothing() {
    let mut state = RuntimeControlState::default();
    let config = vec![record(10_001, 40), record(10_002, 50)];
    let result = run_control_pass(
        &mut state,
        &config,
        |_, _| Err(DaemonError::system("must not be called")),
        |_| Err(DaemonError::system("must not be called")),
        |_| Err(DaemonError::system("must not be called")),
        &[],
        1_000,
    );
    assert!(result.is_ok());
    assert!(state.operation_log().records().is_empty());
    assert!(run_control_pass(&mut state, &[], |_, _| Err(DaemonError::system("x")), |_| Ok(()), |_| Ok(()), &[], 1).is_ok());
}

#[test]
fn failed_discovery_ends_the_pass_with_its_error() {
    let mut state = RuntimeControlState::default();
    let error = run_control_pass(
        &mut state,
        &[record(10_123, 30)],
        |name, uid| {
            assert_eq!((name, uid), ("uid10123", 10_123));
            Err(DaemonError::system("proc unreadable"))
        },
        |_| Ok(()),
        |_| Ok(()),
        &[],
        1_000,
    )
    .expect_err("discovery failure ends the pass");
    assert_eq!(error.message(), "system error: proc unreadable");
}

#[test]
fn failed_freeze_logs_the_fallback_with_its_reason() {
    let mut state = RuntimeControlState::default();
    let mut frozen = process();
    frozen.cgroup_freeze_path = Some("/sys/fs/cgroup/apps/uid_10123/pid_123/cgroup.freeze".to_owned());
    let discover_calls = std::cell::Cell::new(0);
    run_control_pass_with_settings(
        &mut state,
        &[record(10_123, 30)],
        &[],
        |_, _| {
            discover_calls.set(discover_calls.get() + 1);
            Ok(vec![frozen.clone()])
        },
        |_| Err(DaemonError::system("x")),
        |_| Ok(()),
        &[],
        1_000,
    )
    .expect("a failed freeze does not end the pass");

    assert_eq!(discover_calls.get(), 1);
    let records = state.operation_log().records();
    assert_eq!(records.len(), 1);
    assert_eq!(records[0].operation_id, 1);
    assert_eq!(records[0].timestamp_ms, 1_000);
    assert_eq!(records[0].action, ControlAction::Fallback);
    assert_eq!(records[0].result, OperationResult::Skipped);
    assert_eq!(records[0].pid_list, vec![123]);
    assert_eq!(records[0].reason, "freezer apply failed: system error: x");
}

#[test]
fn delayed_freeze_is_logged_as_postponed() {
    let mut state = RuntimeControlState::default();
    let mut settings = vec![0_u8; 256];
    settings[2] = 3;
    run_control_pass_with_settings(
        &mut state,
        &[record(10_123, 30)],
        &settings,
        |_, _| Ok(vec![process()]),
        |_| panic!("no freeze before the delay"),
        |_| Ok(()),
        &[],
        1_000,
    )
    .expect("pass succeeds");
    let records = state.operation_log().records();
    assert_eq!(records.len(), 1);
    assert_eq!(records[0].action, ControlAction::Postpone);
    assert_eq!(records[0].result, OperationResult::Postponed);
    assert_eq!(records[0].reason, "pending freeze delay 3000ms");
}

#[test]
fn retries_hand_each_load_its_attempt_number() {
    let paths = DaemonPaths::from_module_dir("/nonexistent/freezeit".to_owned());
    let seen = std::cell::RefCell::new(Vec::new());
    let loaded = load_policy_with_retries(&paths, 3, |_, attempt| {
        seen.borrow_mut().push(attempt);
        Ok(LoadedPolicyFiles {
            app_config: if attempt == 1 { Some("a 30".to_owned()) } else { None },
            app_label: None,
            settings: None,
        })
    })
    .expect("found on the second load");
    assert!(loaded.is_available());
    assert_eq!(*seen.borrow(), vec![0, 1]);
}

#[test]
fn retry_decision_stops_on_error_files_or_last_attempt() {
    let empty: Result<LoadedPolicyFiles, DaemonError> =
        Ok(LoadedPolicyFiles { app_config: None, app_label: None, settings: None });
    assert!(!retry_outcome(&empty, 1, 3));
    assert!(retry_outcome(&empty, 3, 3));
    assert!(retry_outcome(&empty, 1, 0));
    assert!(retry_outcome(&Err(DaemonError::config("x")), 1, 3));
    let found: Result<LoadedPolicyFiles, DaemonError> =
        Ok(LoadedPolicyFiles { app_config: None, app_label: None, settings: Some(vec![1]) });
    assert!(retry_outcome(&found, 1, 3));
}

fn freezable(pid: i32) -> RuntimeProcess {
    let mut p = process();
    p.pid = pid;
    p.cgroup_freeze_path = Some(format!("/sys/fs/cgroup/apps/uid_10123/pid_{pid}/cgroup.freeze"));
    p
}

#[test]
fn partial_freeze_thaws_every_rescanned_process() {
    let mut state = RuntimeControlState::default();
    let discover_calls = std::cell::Cell::new(0);
    let thawed = std::cell::RefCell::new(Vec::new());
    run_control_pass(
        &mut state,
        &[record(10_123, 30)],
        |_, _| {
            discover_calls.set(discover_calls.get() + 1);
            if discover_calls.get() == 1 {
                Ok(vec![freezable(123)])
            } else {
                Ok(vec![freezable(123), freezable(456)])
            }
        },
        |_| Ok(()),
        |p| {
            thawed.borrow_mut().push(p.pid);
            Ok(())
        },
        &[],
        1_000,
    )
    .expect("pass succeeds");

    assert_eq!(discover_calls.get(), 2);
    assert_eq!(*thawed.borrow(), vec![123, 456]);
    let records = state.operation_log().records();
    assert_eq!(records.len(), 1);
    assert_eq!(records[0].action, ControlAction::Freeze);
    assert_eq!(records[0].result, OperationResult::Partial);
    assert_eq!(records[0].pid_list, vec![123, 456]);
    assert!(records[0].reason.contains("new same-uid process appeared after freeze"));

    run_control_pass(
        &mut state,
        &[record(10_123, 30)],
        |_, _| Ok(vec![freezable(123), freezable(456)]),
        |_| Ok(()),
        |_| Ok(()),
        &[10_123],
        2_000,
    )
    .expect("pass succeeds");
    assert_eq!(state.operation_log().records().len(), 1);
}

#[test]
fn partial_freeze_thaws_even_when_a_thaw_fails() {
    let mut state = RuntimeControlState::default();
    let discover_calls = std::cell::Cell::new(0);
    let thawed = std::cell::RefCell::new(Vec::new());
    run_control_pass(
        &mut state,
        &[record(10_123, 30)],
        |_, _| {
            discover_calls.set(discover_calls.get() + 1);
            if discover_calls.get() == 1 {
                Ok(vec![freezable(123)])
            } else {
                Ok(vec![freezable(123), freezable(456)])
            }
        },
        |_| Ok(()),
        |p| {
            thawed.borrow_mut().push(p.pid);
            Err(DaemonError::system("busy"))
        },
        &[],
        1_000,
    )
    .expect("a failed rollback thaw does not end the pass");
    assert_eq!(*thawed.borrow(), vec![123, 456]);
    assert_eq!(state.operation_log().records()[0].result, OperationResult::Partial);
}

#[test]
fn failed_foreground_thaw_ends_the_pass_and_forgets_the_freeze() {
    let mut state = RuntimeControlState::default();
    let package = "com.example.app".to_owned();
    let app = record(10_123, 30);
    run_control_pass(
        &mut state,
        &[app],
        |_, _| Ok(vec![freezable(123)]),
        |_| Ok(()),
        |_| Ok(()),
        &[],
        1_000,
    )
    .expect("pass succeeds");
    assert_eq!(state.operation_log().records().len(), 1);
    assert_eq!(
        state.plan_control_step(&package, &app, &[], &[], 1_500),
        ControlStep::StayFrozen
    );

    let error = run_control_pass(
        &mut state,
        &[app],
        |_, _| Ok(vec![freezable(123)]),
        |_| Ok(()),
        |_| Err(DaemonError::system("thaw refused")),
        &[10_123],
        2_000,
    )
    .expect_err("a failed thaw ends the pass");
    assert_eq!(error.message(), "system error: thaw refused");
    assert_eq!(state.operation_log().records().len(), 1);
    assert_eq!(
        state.plan_control_step(&package, &app, &[], &[], 2_500),
        ControlStep::Decide
    );
}

#[test]
fn bridge_io_errors_are_classified_by_their_text() {
    let refused = DaemonError::from(std::io::Error::new(
        std::io::ErrorKind::ConnectionRefused,
        "Connection refused (os error 111)",
    ));
    assert!(matches!(
        classify_bridge_error(&refused),
        HookBridgeStatus::Missing(t) if t == "io error: Connection refused (os error 111)"
    ));
    let reset = DaemonError::io(false, "Connection reset by peer");
    assert!(matches!(
        classify_bridge_error(&reset),
        HookBridgeStatus::Degraded(t) if t == "io error: Connection reset by peer"
    ));
}
