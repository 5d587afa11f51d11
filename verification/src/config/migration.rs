use vstd::prelude::*;
use crate::app::error::DaemonError;
use crate::domain::policy::{FallbackAction, ForegroundStrategy, FreezeMode, FreezePolicy};
use crate::text::chars::{chars_of, copy_range, string_of};
use crate::text::num::{parse_i32, parse_i32_chars};
use crate::text::scan::{find, find_chars, lemma_find, trim, trimmed};
use crate::text::split::{lines, split_lines, split_tokens, tokens, views};

verus! {

/// Migrating the legacy configuration needs no work of its own: the
/// legacy files are read as they are.
pub fn migrate_legacy_config() -> (r: Result<(), DaemonError>)
    ensures
        r is Ok,
{
    Ok(())
}

/// A legacy line without surrounding white space, unless it is blank or a
/// comment.
pub open spec fn normalized_line(line: Seq<char>) -> Option<Seq<char>> {
    let t = trim(line);
    if t.len() == 0 || t[0] == '#' {
        None
    } else {
        Some(t)
    }
}

fn normalize_chars(line: &[char]) -> (r: Option<Vec<char>>)
    ensures
        normalized_line(line@) is None ==> r is None,
        normalized_line(line@) matches Some(t) ==> (r matches Some(v) && v@ == t),
{
    let t = trimmed(line);
    if t.len() == 0 || t[0] == '#' {
        None
    } else {
        Some(t)
    }
}

/// A legacy line without surrounding white space, unless it is blank or a
/// comment.
pub fn normalize_legacy_line(line: &str) -> (r: Option<String>)
    ensures
        normalized_line(line@) is None ==> r is None,
        normalized_line(line@) matches Some(t) ==> (r matches Some(s) && s@ == t),
{
    let cs = chars_of(line);
    match normalize_chars(cs.as_slice()) {
        Some(t) => Some(string_of(t.as_slice())),
        None => None,
    }
}

/// A legacy policy line: a package name or uid token, a mode, and an
/// optional permissive flag.
#[derive(Debug, Clone, PartialEq, Eq)]
pub struct LegacyPolicyRecord {
    pub package_or_uid: String,
    pub mode: i32,
    pub permissive: bool,
}

/// A legacy label line: a package name and its label.
#[derive(Debug, Clone, PartialEq, Eq)]
pub struct LegacyLabelRecord {
    pub package_name: String,
    pub label: String,
}

/// The legacy configuration as migrated.
#[derive(Debug, Clone, PartialEq, Eq)]
pub struct MigratedLegacyConfig {
    pub policies: Vec<(LegacyPolicyRecord, FreezePolicy)>,
    pub labels: Vec<LegacyLabelRecord>,
    pub settings: Vec<u8>,
}

/// The fields of a legacy policy line: the first word, the mode from the
/// second, and whether the third word, `1` when absent, is anything but
/// `0`.
pub open spec fn legacy_policy_fields(line: Seq<char>) -> Option<(Seq<char>, i32, bool)> {
    match normalized_line(line) {
        None => None,
        Some(t) => {
            let ws = tokens(t);
            if ws.len() >= 2 && parse_i32(ws[1]) is Some {
                Some((ws[0], parse_i32(ws[1])->0, if ws.len() >= 3 { ws[2] != "0"@ } else { true }))
            } else {
                None
            }
        },
    }
}

/// A policy record with the given fields.
pub open spec fn is_policy_record(r: LegacyPolicyRecord, f: (Seq<char>, i32, bool)) -> bool {
    r.package_or_uid@ == f.0 && r.mode == f.1 && r.permissive == f.2
}

pub(crate) fn parse_policy_chars(line: &[char]) -> (r: Option<LegacyPolicyRecord>)
    ensures
        legacy_policy_fields(line@) is None ==> r is None,
        legacy_policy_fields(line@) matches Some(f) ==> (r matches Some(rec) && is_policy_record(rec, f)),
{
    let t = match normalize_chars(line) {
        Some(t) => t,
        None => {
            return None;
        },
    };
    let ws = split_tokens(t.as_slice());
    if ws.len() < 2 {
        return None;
    }
    let mode = match parse_i32_chars(ws[1].as_slice()) {
        Some(m) => m,
        None => {
            return None;
        },
    };
    let permissive = if ws.len() >= 3 {
        let w = &ws[2];
        proof {
            reveal_strlit("0");
        }
        !(w.len() == 1 && w[0] == '0')
    } else {
        true
    };
    proof {
        assert(views(ws@)[0] == ws@[0]@);
        assert(views(ws@)[1] == ws@[1]@);
        if ws.len() >= 3 {
            assert(views(ws@)[2] == ws@[2]@);
            reveal_strlit("0");
            if ws@[2]@ == "0"@ {
                assert(ws@[2]@[0] == '0');
            }
            if ws@[2]@.len() == 1 && ws@[2]@[0] == '0' {
                assert(ws@[2]@ =~= "0"@);
            }
        }
    }
    Some(LegacyPolicyRecord { package_or_uid: string_of(ws[0].as_slice()), mode, permissive })
}

/// Reads a legacy policy line: a package name or uid, a mode, and an
/// optional permissive flag that is on unless it is `0`.
pub fn parse_legacy_policy_line(line: &str) -> (r: Option<LegacyPolicyRecord>)
    ensures
        legacy_policy_fields(line@) is None ==> r is None,
        legacy_policy_fields(line@) matches Some(f) ==> (r matches Some(rec) && is_policy_record(rec, f)),
{
    let cs = chars_of(line);
    parse_policy_chars(cs.as_slice())
}

/// The fields of a legacy label line: the trimmed text before and after the
/// first `####`, both non-empty.
pub open spec fn legacy_label_fields(line: Seq<char>) -> Option<(Seq<char>, Seq<char>)> {
    match normalized_line(line) {
        None => None,
        Some(t) => match find(t, "####"@) {
            None => None,
            Some(k) => {
                let name = trim(t.take(k));
                let label = trim(t.skip(k + 4));
                if name.len() == 0 || label.len() == 0 {
                    None
                } else {
                    Some((name, label))
                }
            },
        },
    }
}

fn parse_label_chars(line: &[char]) -> (r: Option<LegacyLabelRecord>)
    ensures
        legacy_label_fields(line@) is None ==> r is None,
        legacy_label_fields(line@) matches Some(f) ==> (r matches Some(rec) && rec.package_name@
            == f.0 && rec.label@ == f.1),
{
    let t = match normalize_chars(line) {
        Some(t) => t,
        None => {
            return None;
        },
    };
    let marker = chars_of("####");
    let tl = t.len();
    proof {
        reveal_strlit("####");
    }
    match find_chars(t.as_slice(), marker.as_slice()) {
        None => None,
        Some(k) => {
            proof {
                lemma_find(t@, marker@);
                assert(marker@.len() == 4);
                assert(k + 4 <= t@.len());
            }
            let before = copy_range(t.as_slice(), 0, k);
            let after = copy_range(t.as_slice(), k + 4, tl);
            assert(before@ == t@.take(k as int));
            assert(after@ == t@.skip(k + 4));
            let name = trimmed(before.as_slice());
            let label = trimmed(after.as_slice());
            if name.len() == 0 || label.len() == 0 {
                None
            } else {
                Some(
                    LegacyLabelRecord {
                        package_name: string_of(name.as_slice()),
                        label: string_of(label.as_slice()),
                    },
                )
            }
        },
    }
}

/// Reads a legacy label line: `<package>####<label>`.
pub fn parse_legacy_label_line(line: &str) -> (r: Option<LegacyLabelRecord>)
    ensures
        legacy_label_fields(line@) is None ==> r is None,
        legacy_label_fields(line@) matches Some(f) ==> (r matches Some(rec) && rec.package_name@
            == f.0 && rec.label@ == f.1),
{
    let cs = chars_of(line);
    parse_label_chars(cs.as_slice())
}

/// The freeze mode of a legacy mode: 10 terminates, 20, 21, 30 and 31
/// freeze, 40 and 50 protect, anything else leaves the app free.
pub open spec fn migrated_mode(mode: i32) -> FreezeMode {
    if mode == 10 {
        FreezeMode::Terminate
    } else if mode == 20 || mode == 21 || mode == 30 || mode == 31 {
        FreezeMode::Freeze
    } else if mode == 40 || mode == 50 {
        FreezeMode::Protected
    } else {
        FreezeMode::Free
    }
}

/// The policy migrated from a legacy record: its mode, its foreground
/// strategy, network restriction for the modes 21 and 31, and postponing
/// then skipping as fallbacks.
pub open spec fn is_migrated_policy(p: FreezePolicy, record: LegacyPolicyRecord) -> bool {
    &&& p->mode == migrated_mode(record.mode)
    &&& p->delay_ms == 0
    &&& p->foreground_strategy == if record.permissive {
        ForegroundStrategy::Permissive
    } else {
        ForegroundStrategy::Strict
    }
    &&& p->allow_network_restriction == (record.mode == 21 || record.mode == 31)
    &&& !p->allow_wakelock_restriction
    &&& p->fallback_strategy@ == seq![FallbackAction::Postpone, FallbackAction::Skip]
    &&& p->updated_at_ms == 0
}

/// The legacy modes migrate as the legacy config numbers them: 10
/// terminates, each of 20, 21, 30 and 31 freezes, 40 and 50 protect, and
/// any other mode leaves the app free.
pub proof fn law_migrated_modes(mode: i32)
    ensures
        mode == 10 ==> migrated_mode(mode) == FreezeMode::Terminate,
        mode == 20 ==> migrated_mode(mode) == FreezeMode::Freeze,
        mode == 21 ==> migrated_mode(mode) == FreezeMode::Freeze,
        mode == 30 ==> migrated_mode(mode) == FreezeMode::Freeze,
        mode == 31 ==> migrated_mode(mode) == FreezeMode::Freeze,
        (mode == 40 || mode == 50) ==> migrated_mode(mode) == FreezeMode::Protected,
        !(mode == 10 || mode == 20 || mode == 21 || mode == 30 || mode == 31 || mode == 40 || mode
            == 50) ==> migrated_mode(mode) == FreezeMode::Free,
{
}

/// A migrated policy freezes exactly for the legacy freeze modes and
/// terminates for mode 10; it restricts the network for the modes 21 and
/// 31 only, is permissive exactly when the record is, and falls back by
/// postponing, then skipping.
pub proof fn law_migrated_policy(p: FreezePolicy, record: LegacyPolicyRecord)
    requires
        is_migrated_policy(p, record),
    ensures
        p->mode == FreezeMode::Freeze <==> (record.mode == 20 || record.mode == 21 || record.mode
            == 30 || record.mode == 31),
        p->mode == FreezeMode::Terminate <==> record.mode == 10,
        p->mode == FreezeMode::Protected <==> (record.mode == 40 || record.mode == 50),
        p->allow_network_restriction <==> (record.mode == 21 || record.mode == 31),
        p->foreground_strategy == ForegroundStrategy::Permissive <==> record.permissive,
        p->fallback_strategy@ == seq![FallbackAction::Postpone, FallbackAction::Skip],
        !p->allow_wakelock_restriction,
{
}

/// The policy migrated from a legacy record.
pub fn migrate_legacy_policy(record: &LegacyPolicyRecord) -> (p: FreezePolicy)
    ensures
        is_migrated_policy(p, *record),
{
    let mode = if record.mode == 10 {
        FreezeMode::Terminate
    } else if record.mode == 20 || record.mode == 21 || record.mode == 30 || record.mode == 31 {
        FreezeMode::Freeze
    } else if record.mode == 40 || record.mode == 50 {
        FreezeMode::Protected
    } else {
        FreezeMode::Free
    };
    FreezePolicy::Selected {
        mode,
        delay_ms: 0,
        foreground_strategy: if record.permissive {
            ForegroundStrategy::Permissive
        } else {
            ForegroundStrategy::Strict
        },
        allow_network_restriction: record.mode == 21 || record.mode == 31,
        allow_wakelock_restriction: false,
        fallback_strategy: vec![FallbackAction::Postpone, FallbackAction::Skip],
        updated_at_ms: 0,
    }
}

/// The policy fields of the lines that are policy lines, in order.
pub open spec fn policy_lines(ls: Seq<Seq<char>>) -> Seq<(Seq<char>, i32, bool)>
    decreases ls.len(),
{
    if ls.len() == 0 {
        Seq::empty()
    } else {
        let rest = policy_lines(ls.drop_last());
        match legacy_policy_fields(ls.last()) {
            Some(f) => rest.push(f),
            None => rest,
        }
    }
}

/// The label fields of the lines that are label lines, in order.
pub open spec fn label_lines(ls: Seq<Seq<char>>) -> Seq<(Seq<char>, Seq<char>)>
    decreases ls.len(),
{
    if ls.len() == 0 {
        Seq::empty()
    } else {
        let rest = label_lines(ls.drop_last());
        match legacy_label_fields(ls.last()) {
            Some(f) => rest.push(f),
            None => rest,
        }
    }
}

/// Migrates the legacy files: each policy line with its migrated policy,
/// each label line, and the settings bytes unchanged.
pub fn migrate_legacy_files(app_config: &str, app_label: &str, settings: &[u8]) -> (m:
    MigratedLegacyConfig)
    ensures
        m.policies@.len() == policy_lines(lines(app_config@)).len(),
        forall|i: int|
            0 <= i < m.policies@.len() ==> is_policy_record(
                (#[trigger] m.policies@[i]).0,
                policy_lines(lines(app_config@))[i],
            ) && is_migrated_policy(m.policies@[i].1, m.policies@[i].0),
        m.labels@.len() == label_lines(lines(app_label@)).len(),
        forall|i: int|
            0 <= i < m.labels@.len() ==> (#[trigger] m.labels@[i]).package_name@ == label_lines(
                lines(app_label@),
            )[i].0 && m.labels@[i].label@ == label_lines(lines(app_label@))[i].1,
        m.settings@ == settings@,
{
    let cs = chars_of(app_config);
    let ls = split_lines(cs.as_slice());
    let ghost lv = views(ls@);
    let mut policies: Vec<(LegacyPolicyRecord, FreezePolicy)> = Vec::new();
    let mut i: usize = 0;
    while i < ls.len()
        invariant
            i <= ls@.len(),
            lv == views(ls@),
            lv == lines(app_config@),
            policies@.len() == policy_lines(lv.take(i as int)).len(),
            forall|j: int|
                0 <= j < policies@.len() ==> is_policy_record(
                    (#[trigger] policies@[j]).0,
                    policy_lines(lv.take(i as int))[j],
                ) && is_migrated_policy(policies@[j].1, policies@[j].0),
        decreases ls@.len() - i,
    {
        proof {
            assert(lv.take(i + 1).drop_last() == lv.take(i as int));
            assert(lv.take(i + 1).last() == ls@[i as int]@);
        }
        match parse_policy_chars(ls[i].as_slice()) {
            Some(record) => {
                let policy = migrate_legacy_policy(&record);
                policies.push((record, policy));
            },
            None => {},
        }
        i = i + 1;
    }
    assert(lv.take(ls@.len() as int) == lv);
    let cs = chars_of(app_label);
    let ls = split_lines(cs.as_slice());
    let ghost lv = views(ls@);
    let mut labels: Vec<LegacyLabelRecord> = Vec::new();
    let mut i: usize = 0;
    while i < ls.len()
        invariant
            i <= ls@.len(),
            lv == views(ls@),
            lv == lines(app_label@),
            labels@.len() == label_lines(lv.take(i as int)).len(),
            forall|j: int|
                0 <= j < labels@.len() ==> (#[trigger] labels@[j]).package_name@ == label_lines(
                    lv.take(i as int),
                )[j].0 && labels@[j].label@ == label_lines(lv.take(i as int))[j].1,
        decreases ls@.len() - i,
    {
        proof {
            assert(lv.take(i + 1).drop_last() == lv.take(i as int));
            assert(lv.take(i + 1).last() == ls@[i as int]@);
        }
        match parse_label_chars(ls[i].as_slice()) {
            Some(label) => {
                labels.push(label);
            },
            None => {},
        }
        i = i + 1;
    }
    assert(lv.take(ls@.len() as int) == lv);
    MigratedLegacyConfig { policies, labels, settings: vstd::slice::slice_to_vec(settings) }
}

} // verus!
