use vstd::prelude::*;
use crate::domain::capability::{CapabilityName, CapabilityStatus, ControlCapability};
use crate::text::chars::{chars_of, push_chars};
use crate::text::format::{bool_text, decimal, join, json_escape, push_bool, push_decimal, push_json_escaped};

verus! {

/// The device and system the daemon was verified against, and whether its
/// prerequisites were ready there.
#[derive(Debug, Clone, PartialEq, Eq)]
pub struct CompatibilityBaseline {
    pub device_model: String,
    pub android_version: String,
    pub sdk: u32,
    pub fingerprint: String,
    pub kernel: String,
    pub root_ready: bool,
    pub hook_ready: bool,
    pub freezer_ready: bool,
}

/// The name of a capability in reports.
pub open spec fn capability_name_text(name: CapabilityName) -> Seq<char> {
    match name {
        CapabilityName::Root => "root"@,
        CapabilityName::PackageInventory => "package_inventory"@,
        CapabilityName::LsposedSystemServer => "lsposed_system_server"@,
        CapabilityName::CgroupV2Freezer => "cgroup_v2_freezer"@,
        CapabilityName::BinderFreezer => "binder_freezer"@,
        CapabilityName::SignalControl => "signal_control"@,
        CapabilityName::NetworkBreak => "network_break"@,
        CapabilityName::WakelockControl => "wakelock_control"@,
    }
}

/// The name of a capability status in reports.
pub open spec fn capability_status_text(status: CapabilityStatus) -> Seq<char> {
    match status {
        CapabilityStatus::Available => "available"@,
        CapabilityStatus::Missing => "missing"@,
        CapabilityStatus::Degraded => "degraded"@,
        CapabilityStatus::Untested => "untested"@,
    }
}

/// One capability as a JSON object.
pub open spec fn capability_json(c: ControlCapability) -> Seq<char> {
    "{\"name\":\""@ + capability_name_text(c.name) + "\",\"status\":\""@ + capability_status_text(
        c.status,
    ) + "\",\"evidence\":\""@ + json_escape(c.evidence@) + "\"}"@
}

/// The compatibility report as a JSON document.
pub open spec fn compatibility_report(b: CompatibilityBaseline, caps: Seq<ControlCapability>) -> Seq<
    char,
> {
    "{\"deviceModel\":\""@ + json_escape(b.device_model@) + "\",\"androidVersion\":\""@
        + json_escape(b.android_version@) + "\",\"sdk\":"@ + decimal(b.sdk as nat)
        + ",\"fingerprint\":\""@ + json_escape(b.fingerprint@) + "\",\"kernel\":\""@ + json_escape(
        b.kernel@,
    ) + "\",\"rootReady\":"@ + bool_text(b.root_ready) + ",\"hookReady\":"@ + bool_text(
        b.hook_ready,
    ) + ",\"freezerReady\":"@ + bool_text(b.freezer_ready) + ",\"capabilities\":["@ + join(
        caps.map_values(|c: ControlCapability| capability_json(c)),
        ","@,
    ) + "]}"@
}

fn capability_name(name: CapabilityName) -> (s: &'static str)
    ensures
        s@ == capability_name_text(name),
{
    match name {
        CapabilityName::Root => "root",
        CapabilityName::PackageInventory => "package_inventory",
        CapabilityName::LsposedSystemServer => "lsposed_system_server",
        CapabilityName::CgroupV2Freezer => "cgroup_v2_freezer",
        CapabilityName::BinderFreezer => "binder_freezer",
        CapabilityName::SignalControl => "signal_control",
        CapabilityName::NetworkBreak => "network_break",
        CapabilityName::WakelockControl => "wakelock_control",
    }
}

fn capability_status(status: CapabilityStatus) -> (s: &'static str)
    ensures
        s@ == capability_status_text(status),
{
    match status {
        CapabilityStatus::Available => "available",
        CapabilityStatus::Missing => "missing",
        CapabilityStatus::Degraded => "degraded",
        CapabilityStatus::Untested => "untested",
    }
}

fn escape_json(out: &mut String, value: &String)
    ensures
        final(out)@ == old(out)@ + json_escape(value@),
{
    let cs = chars_of(value.as_str());
    push_json_escaped(out, cs.as_slice());
}

fn capability_to_json(c: &ControlCapability) -> (s: String)
    ensures
        s@ == capability_json(*c),
{
    let mut s = "{\"name\":\"".to_owned();
    s.append(capability_name(c.name));
    s.append("\",\"status\":\"");
    s.append(capability_status(c.status));
    s.append("\",\"evidence\":\"");
    escape_json(&mut s, &c.evidence);
    s.append("\"}");
    s
}

fn capabilities_json(caps: &[ControlCapability]) -> (s: String)
    ensures
        s@ == join(caps@.map_values(|c: ControlCapability| capability_json(c)), ","@),
{
    let ghost f = |c: ControlCapability| capability_json(c);
    let mut s = String::new();
    let mut i: usize = 0;
    while i < caps.len()
        invariant
            i <= caps@.len(),
            f == (|c: ControlCapability| capability_json(c)),
            s@ == join(caps@.take(i as int).map_values(f), ","@),
        decreases caps@.len() - i,
    {
        let ghost before = s@;
        if i > 0 {
            s.push(',');
        }
        let one = capability_to_json(&caps[i]);
        let cs = chars_of(one.as_str());
        push_chars(&mut s, cs.as_slice());
        proof {
            let parts = caps@.take(i + 1).map_values(f);
            assert(parts.drop_last() == caps@.take(i as int).map_values(f));
            if i == 0 {
                assert(join(caps@.take(0).map_values(f), ","@) == Seq::<char>::empty());
            } else {
                reveal_strlit(",");
                assert(s@ == before + ","@ + capability_json(caps@[i as int]));
            }
        }
        i = i + 1;
    }
    assert(caps@.take(caps@.len() as int) == caps@);
    s
}

/// Whether every capability is available.
pub open spec fn all_available(caps: Seq<ControlCapability>) -> bool {
    forall|i: int| 0 <= i < caps.len() ==> (#[trigger] caps[i]).status == CapabilityStatus::Available
}

impl CompatibilityBaseline {
    /// The verified target: OnePlus CPH2653 on Android 16, with root, hook
    /// and freezer ready.
    pub fn target_cph2653_android16() -> (b: Self)
        ensures
            b.device_model@ == "CPH2653"@,
            b.android_version@ == "16"@,
            b.sdk == 36,
            b.fingerprint@
                == "OnePlus/CPH2653EEA/OP5D55L1:16/BP2A.250605.015/V.R4T3.1338e95_e24685_de185d:user/release-keys"@,
            b.kernel@ == "6.6.89-android15"@,
            b.root_ready && b.hook_ready && b.freezer_ready,
    {
        CompatibilityBaseline {
            device_model: "CPH2653".to_owned(),
            android_version: "16".to_owned(),
            sdk: 36,
            fingerprint: "OnePlus/CPH2653EEA/OP5D55L1:16/BP2A.250605.015/V.R4T3.1338e95_e24685_de185d:user/release-keys".to_owned(),
            kernel: "6.6.89-android15".to_owned(),
            root_ready: true,
            hook_ready: true,
            freezer_ready: true,
        }
    }

    /// The baseline and the capabilities as a JSON report.
    #[verifier::rlimit(40)]
    pub fn compatibility_json(&self, capabilities: &[ControlCapability]) -> (s: String)
        ensures
            s@ == compatibility_report(*self, capabilities@),
    {
        let caps = capabilities_json(capabilities);
        let mut s = "{\"deviceModel\":\"".to_owned();
        escape_json(&mut s, &self.device_model);
        s.append("\",\"androidVersion\":\"");
        escape_json(&mut s, &self.android_version);
        s.append("\",\"sdk\":");
        push_decimal(&mut s, self.sdk as u128);
        s.append(",\"fingerprint\":\"");
        escape_json(&mut s, &self.fingerprint);
        s.append("\",\"kernel\":\"");
        escape_json(&mut s, &self.kernel);
        s.append("\",\"rootReady\":");
        push_bool(&mut s, self.root_ready);
        s.append(",\"hookReady\":");
        push_bool(&mut s, self.hook_ready);
        s.append(",\"freezerReady\":");
        push_bool(&mut s, self.freezer_ready);
        s.append(",\"capabilities\":[");
        let cs = chars_of(caps.as_str());
        push_chars(&mut s, cs.as_slice());
        s.append("]}");
        s
    }

    /// Control is allowed when root, hook and freezer are ready and every
    /// capability is available.
    pub fn allows_control(&self, capabilities: &[ControlCapability]) -> (r: bool)
        ensures
            r == (self.root_ready && self.hook_ready && self.freezer_ready && all_available(
                capabilities@,
            )),
    {
        if !(self.root_ready && self.hook_ready && self.freezer_ready) {
            return false;
        }
        let mut i: usize = 0;
        while i < capabilities.len()
            invariant
                i <= capabilities@.len(),
                forall|j: int| 0 <= j < i ==> (#[trigger] capabilities@[j]).status
                    == CapabilityStatus::Available,
            decreases capabilities@.len() - i,
        {
            match capabilities[i].status {
                CapabilityStatus::Available => {},
                _ => {
                    return false;
                },
            }
            i = i + 1;
        }
        true
    }
}

} // verus!
