use freezeit_daemon::{
    app::{
        logging::{startup_message, LogLevel, LogRecord},
        operation_log::{legacy_timestamped_line, operation_to_json, OperationLog},
        package_inventory::parse_cmd_package_list,
    },
    config::{
        loader::{parse_manager_app_config, serialize_manager_app_config, DaemonPaths},
        migration::normalize_legacy_line,
    },
    domain::operation::{ControlAction, ControlOperation, OperationResult},
    text::format::{push_decimal, push_json_escaped, push_signed_decimal},
};

#[test]
fn operation_json_is_exact_and_escapes_text() {
    let operation = ControlOperation {
        operation_id: 7,
        timestamp_ms: 42,
        package_name: "com.example.app".to_owned(),
        uid: 10_123,
        pid_list: vec![123, -4],
        action: ControlAction::Freeze,
        backend: "cgroup-v2".to_owned(),
        reason: "say \"hi\"\nnow".to_owned(),
        result: OperationResult::Success,
        details: "a\\b\tc".to_owned(),
    };

    assert_eq!(
        operation_to_json(&operation),
        "{\"operationId\":7,\"timestampMs\":42,\"packageName\":\"com.example.app\",\"uid\":10123,\"pidList\":[123,-4],\"action\":\"freeze\",\"backend\":\"cgroup-v2\",\"reason\":\"say \\\"hi\\\"\\nnow\",\"result\":\"success\",\"details\":\"a\\\\b\\tc\"}"
    );
}

#[test]
fn operation_log_keeps_at_least_one_record_and_drops_the_oldest() {
    let mut log = OperationLog::new(0);
    log.push(operation(1));
    log.push(operation(2));
    assert_eq!(log.records().len(), 1);
    assert_eq!(log.records()[0].operation_id, 2);

    let mut log = OperationLog::new(3);
    log.push(operation(1));
    log.push(operation(2));
    assert_eq!(log.records().len(), 2);
    assert_eq!(log.to_json().matches("\"operationId\"").count(), 2);
}

#[test]
fn legacy_lines_use_utc_plus_eight_clock_time() {
    assert_eq!(legacy_timestamped_line(0, "boot"), "[08:00:00]  boot\n");
    assert_eq!(legacy_timestamped_line(59_999, "x\n"), "[08:00:59]  x\n");
    assert_eq!(legacy_timestamped_line(16 * 3_600_000 + 61_000, "y"), "[00:01:01]  y\n");
}

#[test]
fn numbers_and_json_text_render_exactly() {
    let mut out = String::new();
    push_decimal(&mut out, 0);
    out.push(' ');
    push_decimal(&mut out, 340_282_366_920_938_463_463_374_607_431_768_211_455);
    out.push(' ');
    push_signed_decimal(&mut out, -905);
    out.push(' ');
    push_json_escaped(&mut out, &['"', '\\', '\r', 'é']);
    assert_eq!(
        out,
        "0 340282366920938463463374607431768211455 -905 \\\"\\\\\\ré"
    );
}

#[test]
fn manager_app_config_round_trips_normalized_lines() {
    let lines = vec!["com.example.app 30 1".to_owned(), "  # note".to_owned(), "uid10200 40 ".to_owned()];
    let bytes = serialize_manager_app_config(&lines);
    assert_eq!(bytes, b"com.example.app 30 1\n  # note\nuid10200 40 ".to_vec());
    assert_eq!(
        parse_manager_app_config(&bytes).expect("utf-8"),
        vec!["com.example.app 30 1".to_owned(), "uid10200 40".to_owned()]
    );

    let error = parse_manager_app_config(&[0x61, 0xff]).expect_err("not utf-8");
    assert!(error.message().starts_with("config error: app config is not utf-8: "));
    assert_eq!(normalize_legacy_line("   "), None);
    assert_eq!(normalize_legacy_line(" a b \r"), Some("a b".to_owned()));
}

#[test]
fn module_paths_and_package_listing() {
    let paths = DaemonPaths::from_module_dir("/data/adb/modules/freezeit".to_owned());
    assert_eq!(paths.app_config, "/data/adb/modules/freezeit/appcfg.txt");

    let records = parse_cmd_package_list("package:com.a uid:10001\nnoise\npackage:com.b uid:10002\n");
    assert_eq!(records.len(), 2);
    assert_eq!(records[1].package_name, "com.b");
    assert_eq!(records[1].uid, 10_002);
}

#[test]
fn log_records_keep_level_and_message_and_carry_the_clock() {
    let record = LogRecord::new(LogLevel::Warn, "careful");
    assert_eq!(record.level, LogLevel::Warn);
    assert_eq!(record.message, "careful");
    assert!(record.timestamp_ms > 1_600_000_000_000);
    assert_eq!(startup_message().message, "freezeit daemon starting");
}

fn operation(id: u64) -> ControlOperation {
    ControlOperation {
        operation_id: id,
        timestamp_ms: 0,
        package_name: "com.example.app".to_owned(),
        uid: 10_123,
        pid_list: Vec::new(),
        action: ControlAction::Skip,
        backend: "test".to_owned(),
        reason: "r".to_owned(),
        result: OperationResult::Skipped,
        details: String::new(),
    }
}
