use vstd::prelude::*;

verus! {

/// One app record of the manager's binary app configuration: the app's
/// uid, its legacy freeze mode, and whether its foreground judgement is
/// permissive.
#[derive(Debug, Clone, Copy, PartialEq, Eq, Structural)]
pub struct ManagerAppConfigRecord {
    pub uid: u32,
    pub mode: i32,
    pub permissive: bool,
}

} // verus!

verus! {

/// What the daemon answers the manager from: module and device facts, the
/// logs, the settings block and app records, and the health and diagnostic
/// reports.
#[derive(Debug, Clone, PartialEq, Eq)]
pub struct ReadOnlyState {
    pub module_id: String,
    pub module_name: String,
    pub version: String,
    pub version_code: u32,
    pub author: String,
    pub android_version: String,
    pub kernel_version: String,
    pub work_mode: String,
    pub cluster_num: u32,
    pub ext_memory_mib: u32,
    pub changelog: String,
    pub log: String,
    pub xp_log: String,
    pub settings: Vec<u8>,
    pub app_config: Vec<ManagerAppConfigRecord>,
    pub settings_path: Option<String>,
    pub app_config_path: Option<String>,
    pub daemon_health: String,
    pub hook_health: String,
    pub hook_config_synced: bool,
    pub health_report_json: String,
    pub capability_report_json: String,
    pub compatibility_report_json: String,
    pub self_check_json: String,
    pub operation_log_json: String,
    pub operation_log_text: String,
}

impl Default for ReadOnlyState {
    /// A state with every text empty, no settings or app records, no paths,
    /// zero counts and the hook configuration not synced.
    fn default() -> (s: Self)
        ensures
            s.hook_health@ == Seq::<char>::empty(),
            s.app_config@ == Seq::<ManagerAppConfigRecord>::empty(),
            s.settings@ == Seq::<u8>::empty(),
            s.log@ == Seq::<char>::empty(),
            s.xp_log@ == Seq::<char>::empty(),
            s.daemon_health@ == Seq::<char>::empty(),
            !s.hook_config_synced,
            s.settings_path is None && s.app_config_path is None,
            s.cluster_num == 0 && s.ext_memory_mib == 0 && s.version_code == 0,
    {
        ReadOnlyState {
            module_id: String::new(),
            module_name: String::new(),
            version: String::new(),
            version_code: 0,
            author: String::new(),
            android_version: String::new(),
            kernel_version: String::new(),
            work_mode: String::new(),
            cluster_num: 0,
            ext_memory_mib: 0,
            changelog: String::new(),
            log: String::new(),
            xp_log: String::new(),
            settings: Vec::new(),
            app_config: Vec::new(),
            settings_path: None,
            app_config_path: None,
            daemon_health: String::new(),
            hook_health: String::new(),
            hook_config_synced: false,
            health_report_json: String::new(),
            capability_report_json: String::new(),
            compatibility_report_json: String::new(),
            self_check_json: String::new(),
            operation_log_json: String::new(),
            operation_log_text: String::new(),
        }
    }
}

} // verus!
