use vstd::prelude::*;
use crate::app::error::DaemonError;
use crate::domain::capability::CapabilityStatus;
use crate::text::chars::{chars_of, push_chars, string_of};
use crate::text::format::{bool_text, decimal, push_bool, push_decimal};
use crate::text::scan::{trim, trimmed};
use crate::text::split::{split_tokens, tokens, views};

verus! {

/// Declares `std::path::PathBuf` so that found freeze files can be carried.
#[verifier::external_type_specification]
#[verifier::external_body]
pub struct ExPathBuf(std::path::PathBuf);

/// The name of the cgroup v2 freeze control file.
pub const CGROUP_FREEZE_FILE: &'static str = "cgroup.freeze";

/// Which cgroup v2 hierarchy holds the freeze files.
#[derive(Debug, Clone, Copy, PartialEq, Eq, Structural)]
pub enum CgroupFreezerPreference {
    AndroidAppCgroupV2,
    SystemCgroupV2,
    GenericCgroupV2,
    Missing,
}

/// What was found out about the cgroup v2 freezer.
#[derive(Debug, Clone, PartialEq, Eq)]
pub struct CgroupFreezerCapability {
    pub status: CapabilityStatus,
    pub preference: CgroupFreezerPreference,
    pub freeze_files: Vec<std::path::PathBuf>,
    pub evidence: String,
}

/// The state written to or read from a `cgroup.freeze` file.
#[derive(Debug, Clone, Copy, PartialEq, Eq, Structural)]
pub enum FreezeState {
    Thawed,
    Frozen,
}

impl FreezeState {
    /// The file content for the state: `0` thawed, `1` frozen.
    pub fn as_str(self) -> (s: &'static str)
        ensures
            self == FreezeState::Thawed ==> s@ == "0"@,
            self == FreezeState::Frozen ==> s@ == "1"@,
    {
        match self {
            FreezeState::Thawed => "0",
            FreezeState::Frozen => "1",
        }
    }
}

/// The state that a `cgroup.freeze` file holds, if it holds a known one.
pub open spec fn freeze_state_of(text: Seq<char>) -> Option<FreezeState> {
    if trim(text) == "0"@ {
        Some(FreezeState::Thawed)
    } else if trim(text) == "1"@ {
        Some(FreezeState::Frozen)
    } else {
        None
    }
}

/// Reads the content of a `cgroup.freeze` file: `0` or `1` around white
/// space, anything else an error naming the trimmed value.
pub fn parse_freeze_state(text: &str) -> (r: Result<FreezeState, DaemonError>)
    ensures
        freeze_state_of(text@) matches Some(s) ==> r == Ok::<FreezeState, DaemonError>(s),
        freeze_state_of(text@) is None ==> (r matches Err(DaemonError::System(m)) && m@
            == "unknown cgroup.freeze state "@ + trim(text@)),
{
    let cs = chars_of(text);
    let value = trimmed(cs.as_slice());
    proof {
        reveal_strlit("0");
        reveal_strlit("1");
    }
    if value.len() == 1 && value[0] == '0' {
        assert(value@ == "0"@);
        return Ok(FreezeState::Thawed);
    }
    if value.len() == 1 && value[0] == '1' {
        assert(value@ == "1"@);
        return Ok(FreezeState::Frozen);
    }
    let mut message = "unknown cgroup.freeze state ".to_owned();
    push_chars(&mut message, value.as_slice());
    Err(DaemonError::System(message))
}

/// Whether the word `freezer` is among the white-space separated words.
pub open spec fn lists_freezer(controllers: Seq<char>) -> bool {
    tokens(controllers).contains("freezer"@)
}

/// The evidence text for a cgroup scan.
pub open spec fn cgroup_evidence(display: Seq<char>, controllers: Seq<char>, count: nat) -> Seq<
    char,
> {
    display + " contains freezer="@ + bool_text(lists_freezer(controllers)) + "; freeze_files="@
        + decimal(count)
}

fn lists_freezer_exec(controllers: &str) -> (r: bool)
    ensures
        r == lists_freezer(controllers@),
{
    let cs = chars_of(controllers);
    let words = split_tokens(cs.as_slice());
    let freezer = chars_of("freezer");
    let mut i: usize = 0;
    while i < words.len()
        invariant
            i <= words@.len(),
            views(words@) == tokens(controllers@),
            freezer@ == "freezer"@,
            forall|j: int| 0 <= j < i ==> words@[j]@ != "freezer"@,
        decreases words@.len() - i,
    {
        let w = &words[i];
        if w.len() == freezer.len() {
            let mut k: usize = 0;
            let mut same = true;
            while k < w.len()
                invariant
                    w@.len() == freezer@.len(),
                    k <= w@.len(),
                    same == (forall|m: int| 0 <= m < k ==> w@[m] == freezer@[m]),
                decreases w@.len() - k,
            {
                if w[k] != freezer[k] {
                    same = false;
                }
                k = k + 1;
            }
            if same {
                assert(w@ == freezer@);
                assert(views(words@)[i as int] == w@);
                return true;
            }
        }
        i = i + 1;
    }
    proof {
        if tokens(controllers@).contains("freezer"@) {
            let j = choose|j: int| 0 <= j < tokens(controllers@).len() && tokens(controllers@)[j] == "freezer"@;
            assert(views(words@)[j] == words@[j]@);
        }
    }
    false
}

/// The cgroup freezer capability from a scan of the cgroup tree: the freeze
/// files under `apps` are preferred, then those under `system`, then those
/// anywhere; the freezer is available exactly when some were found. The
/// evidence names the controllers file, whether it lists `freezer`, and the
/// number of freeze files.
pub fn cgroup_capability_from_scan(
    controllers_display: &str,
    controllers_text: &str,
    app_files: Vec<std::path::PathBuf>,
    system_files: Vec<std::path::PathBuf>,
    generic_files: Vec<std::path::PathBuf>,
) -> (c: CgroupFreezerCapability)
    ensures
        app_files@.len() > 0 ==> c.preference == CgroupFreezerPreference::AndroidAppCgroupV2
            && c.freeze_files@ == app_files@,
        app_files@.len() == 0 && system_files@.len() > 0 ==> c.preference
            == CgroupFreezerPreference::SystemCgroupV2 && c.freeze_files@ == system_files@,
        app_files@.len() == 0 && system_files@.len() == 0 && generic_files@.len() > 0
            ==> c.preference == CgroupFreezerPreference::GenericCgroupV2 && c.freeze_files@
            == generic_files@,
        app_files@.len() == 0 && system_files@.len() == 0 && generic_files@.len() == 0
            ==> c.preference == CgroupFreezerPreference::Missing && c.freeze_files@.len() == 0,
        c.status == (if c.freeze_files@.len() > 0 {
            CapabilityStatus::Available
        } else {
            CapabilityStatus::Missing
        }),
        c.evidence@ == cgroup_evidence(
            controllers_display@,
            controllers_text@,
            c.freeze_files@.len(),
        ),
{
    let has_freezer = lists_freezer_exec(controllers_text);
    let (preference, freeze_files) = if app_files.len() > 0 {
        (CgroupFreezerPreference::AndroidAppCgroupV2, app_files)
    } else if system_files.len() > 0 {
        (CgroupFreezerPreference::SystemCgroupV2, system_files)
    } else if generic_files.len() > 0 {
        (CgroupFreezerPreference::GenericCgroupV2, generic_files)
    } else {
        (CgroupFreezerPreference::Missing, Vec::new())
    };
    let status = if freeze_files.len() > 0 {
        CapabilityStatus::Available
    } else {
        CapabilityStatus::Missing
    };
    let display = chars_of(controllers_display);
    let mut evidence = string_of(display.as_slice());
    evidence.append(" contains freezer=");
    push_bool(&mut evidence, has_freezer);
    evidence.append("; freeze_files=");
    push_decimal(&mut evidence, freeze_files.len() as u128);
    CgroupFreezerCapability { status, preference, freeze_files, evidence }
}

} // verus!
