use vstd::prelude::*;

verus! {

/// A control primitive that the daemon may rely on.
#[derive(Debug, Clone, Copy, PartialEq, Eq, Structural)]
pub enum CapabilityName {
    Root,
    PackageInventory,
    LsposedSystemServer,
    CgroupV2Freezer,
    BinderFreezer,
    SignalControl,
    NetworkBreak,
    WakelockControl,
}

/// What a probe found out about a capability.
#[derive(Debug, Clone, Copy, PartialEq, Eq, Structural)]
pub enum CapabilityStatus {
    Available,
    Missing,
    Degraded,
    Untested,
}

/// How cautiously a capability may be used.
#[derive(Debug, Clone, Copy, PartialEq, Eq, Structural)]
pub enum RiskLevel {
    Normal,
    Caution,
    Disabled,
}

/// A capability together with the evidence for its status.
#[derive(Debug, Clone, PartialEq, Eq)]
pub struct ControlCapability {
    pub name: CapabilityName,
    pub status: CapabilityStatus,
    pub evidence: String,
    pub checked_at_ms: u128,
    pub risk_level: RiskLevel,
}

impl ControlCapability {
    /// A capability that is missing and therefore disabled.
    pub fn missing(name: CapabilityName, evidence: &str) -> (c: Self)
        ensures
            c.name == name,
            c.status == CapabilityStatus::Missing,
            c.evidence@ == evidence@,
            c.checked_at_ms == 0,
            c.risk_level == RiskLevel::Disabled,
    {
        ControlCapability {
            name,
            status: CapabilityStatus::Missing,
            evidence: evidence.to_owned(),
            checked_at_ms: 0,
            risk_level: RiskLevel::Disabled,
        }
    }
}

} // verus!
