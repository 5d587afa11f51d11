//! The daemon's view of the system: binder and cgroup freezers, signals,
//! the manager socket and the hook bridge.

pub mod binder;
pub mod cgroup;
pub mod signal;
pub mod socket;
pub mod xposed_bridge;
