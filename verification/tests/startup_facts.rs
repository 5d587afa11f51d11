use freezeit_daemon::{
    app::controller::{
        append_daemon_status_log, apply_module_prop_text, cpu_cluster_count,
        kernel_release_from_proc_version, note_hook_config_sync, swap_total_mib,
    },
    protocol::manager_v1::{ManagerAppConfigRecord, ReadOnlyState},
};

#[test]
fn module_prop_sets_identity_version_and_author() {
    let mut state = ReadOnlyState::default();
    apply_module_prop_text(
        &mut state,
        "id=freezeit\nname = Freezeit \nversion=3.2.8SelfUse\nversionCode=302008\nauthor=JARK006 / @szh1118\ndescription=x=y\nbroken line\n",
    );

    assert_eq!(state.module_id, "freezeit");
    assert_eq!(state.module_name, "Freezeit");
    assert_eq!(state.version, "3.2.8SelfUse");
    assert_eq!(state.version_code, 302_008);
    assert_eq!(state.author, "JARK006 / @szh1118");
    assert!(state.log.is_empty());
}

#[test]
fn module_prop_keeps_version_code_when_value_is_not_a_number() {
    let mut state = ReadOnlyState::default();
    apply_module_prop_text(&mut state, "versionCode=7\nversionCode=abc\nid=a\nid=b");
    assert_eq!(state.version_code, 7);
    assert_eq!(state.module_id, "b");
}

#[test]
fn cpu_clusters_count_core_entries_and_are_at_least_one() {
    let names: Vec<String> = ["cpu0", "cpu1", "cpufreq", "cpuidle", "cpu", "online", "cpu7"]
        .iter()
        .map(|s| s.to_string())
        .collect();
    assert_eq!(cpu_cluster_count(&names), 3);
    assert_eq!(cpu_cluster_count(&[]), 1);
    assert_eq!(cpu_cluster_count(&["possible".to_owned()]), 1);
}

#[test]
fn swap_size_comes_from_the_first_readable_swap_total_line() {
    assert_eq!(
        swap_total_mib("MemTotal:  16000000 kB\nSwapTotal:  8388604 kB\nSwapFree: 1 kB\n"),
        8191
    );
    assert_eq!(swap_total_mib("SwapTotal: lots\nSwapTotal: 2048 kB\n"), 2);
    assert_eq!(swap_total_mib("MemTotal: 1 kB\n"), 0);
    assert_eq!(swap_total_mib("SwapTotal:\n"), 0);
}

#[test]
fn kernel_release_is_the_third_word_of_proc_version() {
    assert_eq!(
        kernel_release_from_proc_version("Linux version 6.6.89-android15 (build@host) #1"),
        Some("6.6.89-android15".to_owned())
    );
    assert_eq!(kernel_release_from_proc_version("Linux version"), None);
}

#[test]
fn status_and_sync_lines_are_logged() {
    let mut state = ReadOnlyState {
        app_config: vec![ManagerAppConfigRecord { uid: 1, mode: 30, permissive: false }],
        settings: vec![0; 256],
        android_version: "16".to_owned(),
        kernel_version: "6.6.89".to_owned(),
        ..ReadOnlyState::default()
    };
    append_daemon_status_log(&mut state);
    assert_eq!(state.log, "daemon active: apps=1 settings=256 android=16 kernel=6.6.89\n");

    note_hook_config_sync(&mut state, true);
    note_hook_config_sync(&mut state, true);
    assert!(state.hook_config_synced);
    assert_eq!(
        state.log,
        "daemon active: apps=1 settings=256 android=16 kernel=6.6.89\nhook config synced: managed_apps=1 settings=256\n"
    );

    note_hook_config_sync(&mut state, false);
    assert!(!state.hook_config_synced);
    assert!(state.log.ends_with("hook config sync rejected\n"));
}
