use std::path::PathBuf;

use freezeit_daemon::{
    app::{
        error::DaemonError,
        freezer_backend::{BackendEnvironment, SystemAwareCgroupBinderBackend},
    },
    domain::capability::{CapabilityName, CapabilityStatus, RiskLevel},
    sys::{
        binder::{binder_capability_from_device, binder_device_candidates},
        cgroup::{cgroup_capability_from_scan, CgroupFreezerPreference, FreezeState},
        signal::{is_signal_allowed, SignalAction},
    },
};

#[test]
fn cgroup_scan_prefers_android_app_freeze_files() {
    let app = PathBuf::from("/sys/fs/cgroup/apps/uid_10123/pid_123/cgroup.freeze");
    let system = PathBuf::from("/sys/fs/cgroup/system/uid_10123/pid_123/cgroup.freeze");
    let capability = cgroup_capability_from_scan(
        "/sys/fs/cgroup/cgroup.controllers",
        "cpu freezer memory",
        vec![app.clone()],
        vec![system.clone()],
        vec![app.clone(), system],
    );

    assert_eq!(capability.status, CapabilityStatus::Available);
    assert_eq!(capability.preference, CgroupFreezerPreference::AndroidAppCgroupV2);
    assert_eq!(capability.freeze_files, vec![app]);
    assert_eq!(
        capability.evidence,
        "/sys/fs/cgroup/cgroup.controllers contains freezer=true; freeze_files=1"
    );
}

#[test]
fn cgroup_scan_without_freeze_files_is_missing() {
    let capability = cgroup_capability_from_scan("c", "cpu memory", vec![], vec![], vec![]);
    assert_eq!(capability.status, CapabilityStatus::Missing);
    assert_eq!(capability.preference, CgroupFreezerPreference::Missing);
    assert_eq!(capability.evidence, "c contains freezer=false; freeze_files=0");

    let generic = PathBuf::from("/sys/fs/cgroup/x/cgroup.freeze");
    let capability = cgroup_capability_from_scan("c", "", vec![], vec![], vec![generic]);
    assert_eq!(capability.preference, CgroupFreezerPreference::GenericCgroupV2);
}

#[test]
fn binder_device_is_untested_until_probed() {
    assert_eq!(binder_device_candidates(), ["/dev/binder", "/dev/binderfs/binder"]);

    let capability = binder_capability_from_device(Some("/dev/binder".to_owned()));
    assert_eq!(capability.status, CapabilityStatus::Untested);
    assert_eq!(capability.device_path.as_deref(), Some("/dev/binder"));
    assert_eq!(
        capability.evidence,
        "binder device present; BINDER_FREEZE ioctl=0x4004620e, BINDER_UNFREEZE ioctl=0x4004620f; target probe required before marking available"
    );

    let capability = binder_capability_from_device(None);
    assert_eq!(capability.status, CapabilityStatus::Missing);
    assert_eq!(capability.evidence, "no binder device found");
}

#[test]
fn capability_report_follows_probes_and_environment() {
    let backend = SystemAwareCgroupBinderBackend::new(BackendEnvironment {
        network_available: false,
        ..BackendEnvironment::default()
    });
    let caps = backend.capabilities_from_probes(
        Err(DaemonError::system("no cgroup")),
        binder_capability_from_device(Some("/dev/binder".to_owned())),
    );

    assert_eq!(caps.len(), 4);
    assert_eq!(caps[0].name, CapabilityName::CgroupV2Freezer);
    assert_eq!(caps[0].status, CapabilityStatus::Missing);
    assert_eq!(caps[0].evidence, "cgroup capability probe failed: system error: no cgroup");
    assert_eq!(caps[1].name, CapabilityName::BinderFreezer);
    assert_eq!(caps[1].risk_level, RiskLevel::Caution);
    assert_eq!(caps[2].name, CapabilityName::NetworkBreak);
    assert_eq!(caps[2].status, CapabilityStatus::Missing);
    assert_eq!(caps[3].name, CapabilityName::WakelockControl);
    assert_eq!(caps[3].status, CapabilityStatus::Available);
}

#[test]
fn signals_and_freeze_states_have_fixed_values() {
    assert_eq!(SignalAction::Stop.signal_number(), 19);
    assert_eq!(SignalAction::Continue.signal_number(), 18);
    assert!(is_signal_allowed(true, 5));
    assert!(!is_signal_allowed(false, 5));
    assert!(!is_signal_allowed(true, 0));
    assert_eq!(FreezeState::Frozen.as_str(), "1");
    assert_eq!(FreezeState::Thawed.as_str(), "0");
}
