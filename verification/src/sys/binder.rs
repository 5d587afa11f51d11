use vstd::prelude::*;
use crate::domain::capability::CapabilityStatus;
use crate::text::format::{hex, push_hex};

verus! {

/// The device nodes where the binder driver may be found, in order of
/// preference.
pub fn binder_device_candidates() -> (r: [&'static str; 2])
    ensures
        r[0]@ == "/dev/binder"@,
        r[1]@ == "/dev/binderfs/binder"@,
{
    ["/dev/binder", "/dev/binderfs/binder"]
}

/// A binder freezer request.
#[derive(Debug, Clone, Copy, PartialEq, Eq, Structural)]
pub enum BinderFreezeRequest {
    Freeze,
    Unfreeze,
}

/// The ioctl number of `BINDER_FREEZE` and `BINDER_UNFREEZE`.
pub open spec fn ioctl_number(request: BinderFreezeRequest) -> u64 {
    match request {
        BinderFreezeRequest::Freeze => 0x4004_620e,
        BinderFreezeRequest::Unfreeze => 0x4004_620f,
    }
}

/// The ioctl number for a binder freezer request.
pub fn binder_freezer_ioctl_number(request: BinderFreezeRequest) -> (n: u64)
    ensures
        n == ioctl_number(request),
{
    match request {
        BinderFreezeRequest::Freeze => 0x4004_620e,
        BinderFreezeRequest::Unfreeze => 0x4004_620f,
    }
}

/// The ioctl numbers of the two requests differ.
pub proof fn lemma_ioctl_numbers_distinct()
    ensures
        ioctl_number(BinderFreezeRequest::Freeze) != ioctl_number(BinderFreezeRequest::Unfreeze),
{
}

/// What was found out about the binder freezer.
#[derive(Debug, Clone, PartialEq, Eq)]
pub struct BinderFreezerCapability {
    pub status: CapabilityStatus,
    pub device_path: Option<String>,
    pub evidence: String,
}

/// The evidence text for a present binder device.
pub open spec fn binder_present_evidence() -> Seq<char> {
    "binder device present; BINDER_FREEZE ioctl=0x"@ + hex(
        ioctl_number(BinderFreezeRequest::Freeze) as nat,
    ) + ", BINDER_UNFREEZE ioctl=0x"@ + hex(ioctl_number(BinderFreezeRequest::Unfreeze) as nat)
        + "; target probe required before marking available"@
}

/// The binder freezer capability given the first binder device that exists,
/// if any: without one it is missing, with one it stays untested until a
/// probe on the target confirms it.
pub fn binder_capability_from_device(device: Option<String>) -> (c: BinderFreezerCapability)
    ensures
        device is None ==> c.status == CapabilityStatus::Missing && c.device_path is None
            && c.evidence@ == "no binder device found"@,
        device matches Some(d) ==> c.status == CapabilityStatus::Untested && c.device_path
            == Some(d) && c.evidence@ == binder_present_evidence(),
{
    match device {
        None => BinderFreezerCapability {
            status: CapabilityStatus::Missing,
            device_path: None,
            evidence: "no binder device found".to_owned(),
        },
        Some(path) => {
            let mut evidence = "binder device present; BINDER_FREEZE ioctl=0x".to_owned();
            push_hex(&mut evidence, binder_freezer_ioctl_number(BinderFreezeRequest::Freeze));
            evidence.append(", BINDER_UNFREEZE ioctl=0x");
            push_hex(&mut evidence, binder_freezer_ioctl_number(BinderFreezeRequest::Unfreeze));
            evidence.append("; target probe required before marking available");
            BinderFreezerCapability {
                status: CapabilityStatus::Untested,
                device_path: Some(path),
                evidence,
            }
        },
    }
}


/// The binder freezer requests are `BINDER_FREEZE` and `BINDER_UNFREEZE`
/// as the original daemon numbers them.
pub proof fn law_ioctl_numbers()
    ensures
        ioctl_number(BinderFreezeRequest::Freeze) == 0x4004_620e,
        ioctl_number(BinderFreezeRequest::Unfreeze) == 0x4004_620f,
{
}

} // verus!
