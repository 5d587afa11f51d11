use freezeit_daemon::{
    app::controller::load_policy_with_retries,
    config::loader::{DaemonPaths, LoadedPolicyFiles},
};

#[test]
fn missing_policy_files_are_not_fatal_during_unlock_retry() {
    let paths = DaemonPaths::from_module_dir("/nonexistent/freezeit".to_owned());
    let calls = std::cell::Cell::new(0);

    let loaded = load_policy_with_retries(&paths, 2, |_, _| {
        calls.set(calls.get() + 1);
        Ok(LoadedPolicyFiles {
            app_config: None,
            app_label: None,
            settings: None,
        })
    })
    .expect("missing files do not fail");

    assert!(!loaded.is_available());
    assert_eq!(calls.get(), 2);
}
