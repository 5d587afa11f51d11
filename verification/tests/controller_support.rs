use freezeit_daemon::{
    app::{
        controller::{
            append_log_once, decide_freeze, decide_freeze_after_reconciliation,
            load_manager_app_config_records, load_policy_with_retries, parse_legacy_uid_token,
            recover_after_restart, run_control_pass, sanitize_startup_log, RuntimeControlState,
        },
        error::DaemonError,
        freezer_backend::DecisionAction,
        package_inventory::PackageRecord,
    },
    config::loader::{DaemonPaths, LoadedPolicyFiles},
    domain::{
        operation::{ControlAction, OperationResult},
        policy::{
            FallbackAction, ForegroundStrategy, FreezeMode, FreezePolicy, ManagedApp,
            ProtectedReason,
        },
        runtime::{ControlState, ProcessState, RuntimeProcess},
    },
    protocol::manager_v1::ManagerAppConfigRecord,
};

#[test]
fn reconciliation_rejects_other_package_identity_as_system_error() {
    let current = PackageRecord {
        package_name: "com.example.other".to_owned(),
        user_id: 0,
        uid: 10_123,
        label: "Other".to_owned(),
        is_system_app: false,
    };
    let error = decide_freeze_after_reconciliation(&app(), &current, &policy(), &[process()])
        .expect_err("identity mismatch blocks control");

    assert!(matches!(&error, DaemonError::System(m) if m == "package identity mismatch"));
    assert_eq!(error.message(), "system error: package identity mismatch");
}

#[test]
fn reconciliation_passes_matching_package_to_the_decision() {
    let current = PackageRecord {
        package_name: "com.example.app".to_owned(),
        user_id: 0,
        uid: 10_123,
        label: "Example".to_owned(),
        is_system_app: false,
    };
    let decision = decide_freeze_after_reconciliation(&app(), &current, &policy(), &[process()])
        .expect("matching package");

    assert_eq!(decision.action, DecisionAction::Freeze);
    assert_eq!(decision.reason, "cgroup and binder freezer available");
}

#[test]
fn protected_app_is_skipped_by_the_default_backend() {
    let mut protected = app();
    protected.protected_reason = Some(ProtectedReason::Manager);
    let decision = decide_freeze(&protected, &policy(), &[process()]);

    assert_eq!(decision.action, DecisionAction::Skip);
    assert_eq!(decision.reason, "policy or protected package blocks control");
}

#[test]
fn visible_process_or_no_process_prevents_freezing() {
    let mut visible = process();
    visible.proc_state = ProcessState::Visible;
    let decision = decide_freeze(&app(), &policy(), &[process(), visible]);
    assert_eq!(decision.action, DecisionAction::Postpone);
    assert_eq!(decision.reason, "foreground, visible, or unknown process state");

    let decision = decide_freeze(&app(), &policy(), &[]);
    assert_eq!(decision.action, DecisionAction::Skip);
    assert_eq!(decision.reason, "no runtime processes");
}

#[test]
fn restart_recovery_operation_fields_are_exact() {
    let mut second = process();
    second.pid = 456;
    let operation = recover_after_restart(3, 77, "com.example.app", 10_123, &[process(), second]);

    assert_eq!(operation.operation_id, 3);
    assert_eq!(operation.timestamp_ms, 77);
    assert_eq!(operation.package_name, "com.example.app");
    assert_eq!(operation.uid, 10_123);
    assert_eq!(operation.pid_list, vec![123, 456]);
    assert_eq!(operation.action, ControlAction::Recover);
    assert_eq!(operation.backend, "restart-reconciliation");
    assert_eq!(operation.reason, "daemon restart reconciliation");
    assert_eq!(operation.result, OperationResult::Success);
    assert_eq!(operation.details, "observed 2 process(es) before new control");
}

#[test]
fn startup_log_drops_rom_fingerprint_warning_and_its_continuation() {
    let log = "boot ok\nWARNING ROM fingerprint mismatch\n  detail line\nbaseline=a\ndevice=b\nnext line\n";

    assert_eq!(sanitize_startup_log(log), "boot ok\nnext line\n");
}

#[test]
fn startup_log_keeps_other_lines_and_ends_each_with_newline() {
    assert_eq!(sanitize_startup_log("a\r\nb"), "a\nb\n");
    assert_eq!(sanitize_startup_log(""), "");
    assert_eq!(
        sanitize_startup_log("x WARNING ROM fingerprint mismatch y\nbaseline=1\n"),
        ""
    );
    assert_eq!(sanitize_startup_log("baseline=1\n"), "baseline=1\n");
}

#[test]
fn append_log_once_logs_a_line_a_single_time() {
    let mut log = "x\n".to_owned();
    append_log_once(&mut log, "hook config synced\n");
    assert_eq!(log, "x\nhook config synced\n");

    append_log_once(&mut log, "hook config synced\n");
    assert_eq!(log, "x\nhook config synced\n");

    append_log_once(&mut log, "hook config synced");
    assert_eq!(log, "x\nhook config synced\n");

    append_log_once(&mut log, "rejected");
    assert_eq!(log, "x\nhook config synced\nrejected\n");
}

#[test]
fn legacy_uid_tokens_are_numbers_or_follow_uid() {
    assert_eq!(parse_legacy_uid_token("10123"), Some(10_123));
    assert_eq!(parse_legacy_uid_token("+7"), Some(7));
    assert_eq!(parse_legacy_uid_token("u0_uid10200"), Some(10_200));
    assert_eq!(parse_legacy_uid_token("uid"), None);
    assert_eq!(parse_legacy_uid_token("com.example.app"), None);
    assert_eq!(parse_legacy_uid_token("4294967296"), None);
}

#[test]
fn manager_records_come_from_policy_lines_with_known_uids() {
    let packages = vec![
        PackageRecord {
            package_name: "com.example.app".to_owned(),
            user_id: 0,
            uid: 10_500,
            label: "Example".to_owned(),
            is_system_app: false,
        },
        PackageRecord {
            package_name: "com.example.app".to_owned(),
            user_id: 10,
            uid: 10_600,
            label: "Example".to_owned(),
            is_system_app: false,
        },
    ];
    let config = "10123 30 1\ncom.example.app 20 0\n# comment\nunknown.pkg 10 1\nuid10200 40\n";

    assert_eq!(
        load_manager_app_config_records(Some(config), &packages),
        vec![
            ManagerAppConfigRecord { uid: 10_123, mode: 30, permissive: true },
            ManagerAppConfigRecord { uid: 10_600, mode: 20, permissive: false },
            ManagerAppConfigRecord { uid: 10_200, mode: 40, permissive: true },
        ]
    );
    assert!(load_manager_app_config_records(None, &packages).is_empty());
}

#[test]
fn policy_retries_stop_at_the_first_load_that_finds_files() {
    let paths = DaemonPaths::from_module_dir("/nonexistent/freezeit".to_owned());
    let calls = std::cell::Cell::new(0);
    let loaded = load_policy_with_retries(&paths, 5, |_, _| {
        calls.set(calls.get() + 1);
        Ok(LoadedPolicyFiles {
            app_config: None,
            app_label: None,
            settings: Some(vec![1, 2]),
        })
    })
    .expect("available");
    assert!(loaded.is_available());
    assert_eq!(calls.get(), 1);
}

#[test]
fn policy_retries_end_at_a_failed_load_and_run_at_least_once() {
    let paths = DaemonPaths::from_module_dir("/nonexistent/freezeit".to_owned());
    let calls = std::cell::Cell::new(0);
    let error = load_policy_with_retries(&paths, 3, |_, _| {
        calls.set(calls.get() + 1);
        Err(DaemonError::config("unreadable"))
    })
    .expect_err("failure is returned");
    assert_eq!(error.message(), "config error: unreadable");
    assert_eq!(calls.get(), 1);

    let calls = std::cell::Cell::new(0);
    let loaded = load_policy_with_retries(&paths, 0, |_, _| {
        calls.set(calls.get() + 1);
        Ok(LoadedPolicyFiles { app_config: None, app_label: None, settings: None })
    })
    .expect("empty result");
    assert!(!loaded.is_available());
    assert_eq!(calls.get(), 1);
}

fn app() -> ManagedApp {
    ManagedApp {
        package_name: "com.example.app".to_owned(),
        user_id: 0,
        uid: 10_123,
        label: "Example".to_owned(),
        is_system_app: false,
        protected_reason: None,
        policy_id: "default".to_owned(),
        last_seen_baseline: "test".to_owned(),
    }
}

fn policy() -> FreezePolicy {
    FreezePolicy::Selected {
        mode: FreezeMode::Freeze,
        delay_ms: 0,
        foreground_strategy: ForegroundStrategy::Strict,
        allow_network_restriction: false,
        allow_wakelock_restriction: false,
        fallback_strategy: vec![FallbackAction::Skip],
        updated_at_ms: 0,
    }
}

fn process() -> RuntimeProcess {
    RuntimeProcess {
        pid: 123,
        uid: 10_123,
        package_name: "com.example.app".to_owned(),
        process_name: "com.example.app".to_owned(),
        proc_state: ProcessState::Cached,
        control_state: ControlState::Running,
        cgroup_freeze_path: None,
        binder_state: None,
        last_seen_at_ms: 0,
    }
}

#[test]
fn frozen_app_stays_frozen_until_its_uid_comes_to_the_foreground() {
    let mut state = RuntimeControlState::default();
    let config = vec![ManagerAppConfigRecord { uid: 10_123, mode: 30, permissive: false }];
    let thaws = std::cell::Cell::new(0);

    for (time, foreground) in [(1_000_u128, vec![]), (2_000, vec![10_999]), (3_000, vec![10_123])] {
        run_control_pass(
            &mut state,
            &config,
            |_, _| Ok(vec![process()]),
            |_| Ok(()),
            |_| {
                thaws.set(thaws.get() + 1);
                Ok(())
            },
            &foreground,
            time,
        )
        .expect("pass succeeds");
        let expected_thaws = if time == 3_000 { 1 } else { 0 };
        assert_eq!(thaws.get(), expected_thaws);
    }
    let json = state.operation_log.to_json();
    assert_eq!(json.matches("\"action\":\"freeze\"").count(), 1);
    assert_eq!(json.matches("\"action\":\"unfreeze\"").count(), 1);
}
