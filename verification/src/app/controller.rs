use vstd::prelude::*;
use crate::app::error::DaemonError;
use crate::app::freezer_backend::{
    apply_failure_reason, fallback_action, first_fallback, freeze_decision, full_environment, mark_processes_frozen,
    mark_processes_running, pid_list, pids_of, process_count_text, BackendEnvironment, DecisionAction, FreezeDecision,
    SystemAwareCgroupBinderBackend,
};
use crate::app::package_inventory::{reconcile_result, reconcile_uid, PackageRecord};
use crate::config::loader::{DaemonPaths, LoadedPolicyFiles};
use crate::config::migration::{parse_policy_chars, policy_lines};
use crate::app::operation_log::OperationLog;
use crate::domain::operation::{ControlAction, ControlOperation, OperationResult};
use crate::domain::policy::{
    FallbackAction, ForegroundStrategy, FreezeMode, FreezePolicy, ManagedApp,
};
use crate::domain::runtime::{ControlState, RuntimeProcess};
use crate::protocol::manager_v1::{ManagerAppConfigRecord, ReadOnlyState};
use crate::text::chars::{chars_of, copy_range, push_chars, str_eq, string_of};
use crate::text::num::{all_digits, is_digit, parse_u32, parse_u32_chars};
use crate::text::scan::{
    contains, contains_chars, find, find_chars, is_space, is_space_char, lemma_find, matches_at, starts_with,
    starts_with_chars, trim, trim_end, trimmed,
};
use crate::text::split::{lemma_lines_push_line, lines, split_lines, split_tokens, tokens, views};
use crate::text::format::{decimal, join, push_decimal, push_signed_decimal, signed_decimal};

verus! {

/// The key of an app identity: package name and uid.
pub open spec fn id_key(id: (String, u32)) -> (Seq<char>, u32) {
    (id.0@, id.1)
}

/// The key of a pending freeze entry.
pub open spec fn pending_key(e: (String, u32, u128)) -> (Seq<char>, u32) {
    (e.0@, e.1)
}

/// Whether the keys of a sequence are all different.
pub open spec fn distinct_keys<T>(s: Seq<T>, key: spec_fn(T) -> (Seq<char>, u32)) -> bool {
    forall|i: int, j: int| 0 <= i < j < s.len() ==> key(s[i]) != key(s[j])
}

/// The state the control pass keeps from one pass to the next: the log of
/// operations, the apps it froze, the freezes that wait for their delay,
/// and the id of the next operation.
#[derive(Debug, PartialEq, Eq)]
pub struct RuntimeControlState {
    pub operation_log: OperationLog,
    frozen_apps: Vec<(String, u32)>,
    pending_freezes: Vec<(String, u32, u128)>,
    next_operation_id: u64,
}

impl RuntimeControlState {
    /// The identities of the apps that the pass froze.
    pub closed spec fn frozen(&self) -> Set<(Seq<char>, u32)> {
        self.frozen_apps@.map_values(|id: (String, u32)| id_key(id)).to_set()
    }

    /// The freezes that wait for their delay, by identity, with the time at
    /// which they fall due.
    pub closed spec fn pending(&self) -> Map<(Seq<char>, u32), u128> {
        Map::new(
            |k: (Seq<char>, u32)|
                exists|i: int|
                    0 <= i < self.pending_freezes@.len() && pending_key(self.pending_freezes@[i]) == k,
            |k: (Seq<char>, u32)|
                self.pending_freezes@[choose|i: int|
                    0 <= i < self.pending_freezes@.len() && pending_key(self.pending_freezes@[i])
                        == k].2,
        )
    }

    /// The operation log.
    pub closed spec fn log(&self) -> OperationLog {
        self.operation_log
    }

    /// The operation log, for callers that read it.
    pub fn operation_log(&self) -> (r: &OperationLog)
        ensures
            *r == self.log(),
    {
        &self.operation_log
    }

    /// The id the next logged operation gets.
    pub closed spec fn next_id(&self) -> u64 {
        self.next_operation_id
    }

    /// No identity is frozen twice or pending twice.
    pub closed spec fn wf(&self) -> bool {
        &&& distinct_keys(self.frozen_apps@, |id: (String, u32)| id_key(id))
        &&& distinct_keys(self.pending_freezes@, |e: (String, u32, u128)| pending_key(e))
    }

    proof fn lemma_pending_at(&self, i: int)
        requires
            self.wf(),
            0 <= i < self.pending_freezes@.len(),
        ensures
            self.pending().contains_key(pending_key(self.pending_freezes@[i])),
            self.pending()[pending_key(self.pending_freezes@[i])] == self.pending_freezes@[i].2,
    {
        let k = pending_key(self.pending_freezes@[i]);
        assert(self.pending().dom().contains(k));
        let j = choose|j: int|
            0 <= j < self.pending_freezes@.len() && pending_key(self.pending_freezes@[j]) == k;
        if j != i {
            if j < i {
                assert(pending_key(self.pending_freezes@[j]) != pending_key(self.pending_freezes@[i]));
            } else {
                assert(pending_key(self.pending_freezes@[i]) != pending_key(self.pending_freezes@[j]));
            }
        }
    }

    fn find_frozen(&self, package_name: &String, uid: u32) -> (r: Option<usize>)
        ensures
            r matches Some(i) ==> i < self.frozen_apps@.len() && id_key(self.frozen_apps@[i as int])
                == (package_name@, uid),
            r is None ==> !self.frozen().contains((package_name@, uid)),
    {
        let mut i: usize = 0;
        while i < self.frozen_apps.len()
            invariant
                i <= self.frozen_apps@.len(),
                forall|j: int| 0 <= j < i ==> id_key(#[trigger] self.frozen_apps@[j]) != (
                package_name@, uid),
            decreases self.frozen_apps@.len() - i,
        {
            if self.frozen_apps[i].1 == uid && self.frozen_apps[i].0 == *package_name {
                return Some(i);
            }
            i = i + 1;
        }
        proof {
            let s = self.frozen_apps@.map_values(|id: (String, u32)| id_key(id));
            if s.contains((package_name@, uid)) {
                let j = choose|j: int| 0 <= j < s.len() && s[j] == (package_name@, uid);
                assert(id_key(self.frozen_apps@[j]) == (package_name@, uid));
            }
        }
        None
    }

    fn is_frozen(&self, package_name: &String, uid: u32) -> (r: bool)
        ensures
            r == self.frozen().contains((package_name@, uid)),
    {
        match self.find_frozen(package_name, uid) {
            Some(i) => {
                proof {
                    let s = self.frozen_apps@.map_values(|id: (String, u32)| id_key(id));
                    assert(s[i as int] == (package_name@, uid));
                }
                true
            },
            None => false,
        }
    }

    fn remove_frozen(&mut self, package_name: &String, uid: u32) -> (r: bool)
        requires
            old(self).wf(),
        ensures
            final(self).wf(),
            r == old(self).frozen().contains((package_name@, uid)),
            final(self).frozen() == old(self).frozen().remove((package_name@, uid)),
            final(self).pending() == old(self).pending(),
            final(self).next_id() == old(self).next_id(),
            final(self).operation_log == old(self).operation_log,
    {
        match self.find_frozen(package_name, uid) {
            Some(i) => {
                let ghost old_s = self.frozen_apps@;
                let ghost k = (package_name@, uid);
                let _ = self.frozen_apps.remove(i);
                proof {
                    let f = |id: (String, u32)| id_key(id);
                    let new_s = self.frozen_apps@;
                    assert(old_s.map_values(f)[i as int] == k);
                    assert forall|a: int, b: int| 0 <= a < b < new_s.len() implies f(new_s[a]) != f(
                        new_s[b],
                    ) by {
                        let oa = if a < i { a } else { a + 1 };
                        let ob = if b < i { b } else { b + 1 };
                        assert(new_s[a] == old_s[oa]);
                        assert(new_s[b] == old_s[ob]);
                    }
                    assert(self.frozen() =~= old(self).frozen().remove(k)) by {
                        assert forall|x: (Seq<char>, u32)| self.frozen().contains(x) implies old(
                            self,
                        ).frozen().remove(k).contains(x) by {
                            let j = choose|j: int| 0 <= j < new_s.len() && new_s.map_values(f)[j] == x;
                            let oj = if j < i { j } else { j + 1 };
                            assert(new_s[j] == old_s[oj]);
                            assert(old_s.map_values(f)[oj] == x);
                            if x == k {
                                if oj < i {
                                    assert(f(old_s[oj]) != f(old_s[i as int]));
                                } else {
                                    assert(f(old_s[i as int]) != f(old_s[oj]));
                                }
                            }
                        }
                        assert forall|x: (Seq<char>, u32)| old(self).frozen().remove(k).contains(x) implies self.frozen().contains(x) by {
                            let j = choose|j: int| 0 <= j < old_s.len() && old_s.map_values(f)[j] == x;
                            assert(j != i);
                            let nj = if j < i { j } else { j - 1 };
                            assert(new_s[nj] == old_s[j]);
                            assert(new_s.map_values(f)[nj] == x);
                        }
                    }
                    assert(old_s.map_values(f).contains(k));
                }
                true
            },
            None => {
                proof {
                    assert(self.frozen() =~= old(self).frozen().remove((package_name@, uid)));
                }
                false
            },
        }
    }

    fn insert_frozen(&mut self, package_name: String, uid: u32)
        requires
            old(self).wf(),
        ensures
            final(self).wf(),
            final(self).frozen() == old(self).frozen().insert((package_name@, uid)),
            final(self).pending() == old(self).pending(),
            final(self).next_id() == old(self).next_id(),
            final(self).operation_log == old(self).operation_log,
    {
        if self.is_frozen(&package_name, uid) {
            proof {
                assert(self.frozen() =~= old(self).frozen().insert((package_name@, uid)));
            }
            return;
        }
        let ghost old_s = self.frozen_apps@;
        let ghost k = (package_name@, uid);
        self.frozen_apps.push((package_name, uid));
        proof {
            let f = |id: (String, u32)| id_key(id);
            let new_s = self.frozen_apps@;
            assert(new_s.map_values(f) == old_s.map_values(f).push(k));
            assert forall|a: int, b: int| 0 <= a < b < new_s.len() implies f(new_s[a]) != f(new_s[b]) by {
                if b == new_s.len() - 1 {
                    assert(old_s.map_values(f)[a] == f(new_s[a]));
                }
            }
            let ns = new_s.map_values(f);
            let os = old_s.map_values(f);
            assert forall|x: (Seq<char>, u32)| self.frozen().contains(x) implies old(self).frozen().insert(k).contains(x) by {
                let j = choose|j: int| 0 <= j < ns.len() && ns[j] == x;
                if j < os.len() {
                    assert(os[j] == x);
                }
            }
            assert forall|x: (Seq<char>, u32)| old(self).frozen().insert(k).contains(x) implies self.frozen().contains(x) by {
                if x == k {
                    assert(ns[os.len() as int] == k);
                } else {
                    let j = choose|j: int| 0 <= j < os.len() && os[j] == x;
                    assert(ns[j] == x);
                }
            }
            assert(self.frozen() =~= old(self).frozen().insert(k));
        }
    }

    fn find_pending(&self, package_name: &String, uid: u32) -> (r: Option<usize>)
        requires
            self.wf(),
        ensures
            r matches Some(i) ==> i < self.pending_freezes@.len() && pending_key(
                self.pending_freezes@[i as int],
            ) == (package_name@, uid) && self.pending().contains_key((package_name@, uid))
                && self.pending()[(package_name@, uid)] == self.pending_freezes@[i as int].2,
            r is None ==> !self.pending().contains_key((package_name@, uid)),
    {
        let mut i: usize = 0;
        while i < self.pending_freezes.len()
            invariant
                self.wf(),
                i <= self.pending_freezes@.len(),
                forall|j: int| 0 <= j < i ==> pending_key(#[trigger] self.pending_freezes@[j]) != (
                package_name@, uid),
            decreases self.pending_freezes@.len() - i,
        {
            if self.pending_freezes[i].1 == uid && self.pending_freezes[i].0 == *package_name {
                proof {
                    self.lemma_pending_at(i as int);
                }
                return Some(i);
            }
            i = i + 1;
        }
        None
    }

    fn pending_due(&self, package_name: &String, uid: u32) -> (r: Option<u128>)
        requires
            self.wf(),
        ensures
            r is Some <==> self.pending().contains_key((package_name@, uid)),
            r matches Some(d) ==> d == self.pending()[(package_name@, uid)],
    {
        match self.find_pending(package_name, uid) {
            Some(i) => Some(self.pending_freezes[i].2),
            None => None,
        }
    }

    fn remove_pending(&mut self, package_name: &String, uid: u32)
        requires
            old(self).wf(),
        ensures
            final(self).wf(),
            final(self).pending() == old(self).pending().remove((package_name@, uid)),
            final(self).frozen() == old(self).frozen(),
            final(self).next_id() == old(self).next_id(),
            final(self).operation_log == old(self).operation_log,
    {
        match self.find_pending(package_name, uid) {
            Some(i) => {
                let ghost old_s = self.pending_freezes@;
                let ghost k = (package_name@, uid);
                let _ = self.pending_freezes.remove(i);
                proof {
                    let new_s = self.pending_freezes@;
                    assert forall|a: int, b: int| 0 <= a < b < new_s.len() implies pending_key(
                        new_s[a],
                    ) != pending_key(new_s[b]) by {
                        let oa = if a < i { a } else { a + 1 };
                        let ob = if b < i { b } else { b + 1 };
                        assert(new_s[a] == old_s[oa]);
                        assert(new_s[b] == old_s[ob]);
                    }
                    assert forall|x: (Seq<char>, u32)| #[trigger] self.pending().contains_key(x)
                        implies old(self).pending().remove(k).contains_key(x) && self.pending()[x]
                        == old(self).pending()[x] by {
                        let j = choose|j: int| 0 <= j < new_s.len() && pending_key(new_s[j]) == x;
                        let oj = if j < i { j } else { j + 1 };
                        assert(new_s[j] == old_s[oj]);
                        self.lemma_pending_at(j);
                        old(self).lemma_pending_at(oj);
                        if x == k {
                            if oj < i {
                                assert(pending_key(old_s[oj]) != pending_key(old_s[i as int]));
                            } else {
                                assert(pending_key(old_s[i as int]) != pending_key(old_s[oj]));
                            }
                        }
                    }
                    assert forall|x: (Seq<char>, u32)| #[trigger] old(self).pending().remove(k).contains_key(x) implies self.pending().contains_key(x) by {
                        let j = choose|j: int| 0 <= j < old_s.len() && pending_key(old_s[j]) == x;
                        assert(j != i);
                        let nj = if j < i { j } else { j - 1 };
                        assert(new_s[nj] == old_s[j]);
                    }
                    assert(self.pending() =~= old(self).pending().remove(k));
                }
            },
            None => {
                proof {
                    assert(self.pending() =~= old(self).pending().remove((package_name@, uid)));
                }
            },
        }
    }

    fn insert_pending(&mut self, package_name: String, uid: u32, due_at_ms: u128)
        requires
            old(self).wf(),
            !old(self).pending().contains_key((package_name@, uid)),
        ensures
            final(self).wf(),
            final(self).pending() == old(self).pending().insert((package_name@, uid), due_at_ms),
            final(self).frozen() == old(self).frozen(),
            final(self).next_id() == old(self).next_id(),
            final(self).operation_log == old(self).operation_log,
    {
        let ghost old_s = self.pending_freezes@;
        let ghost k = (package_name@, uid);
        self.pending_freezes.push((package_name, uid, due_at_ms));
        proof {
            let new_s = self.pending_freezes@;
            let n = old_s.len() as int;
            assert forall|a: int, b: int| 0 <= a < b < new_s.len() implies pending_key(new_s[a])
                != pending_key(new_s[b]) by {
                if b == n {
                    assert(new_s[a] == old_s[a]);
                    assert(old(self).pending().contains_key(pending_key(old_s[a])));
                }
            }
            assert forall|x: (Seq<char>, u32)| #[trigger] self.pending().contains_key(x)
                implies old(self).pending().insert(k, due_at_ms).contains_key(x) && self.pending()[x]
                == old(self).pending().insert(k, due_at_ms)[x] by {
                let j = choose|j: int| 0 <= j < new_s.len() && pending_key(new_s[j]) == x;
                self.lemma_pending_at(j);
                if j < n {
                    assert(new_s[j] == old_s[j]);
                    old(self).lemma_pending_at(j);
                }
            }
            assert forall|x: (Seq<char>, u32)| #[trigger] old(self).pending().insert(k, due_at_ms).contains_key(x) implies self.pending().contains_key(x) by {
                if x == k {
                    assert(pending_key(new_s[n]) == k);
                } else {
                    let j = choose|j: int| 0 <= j < old_s.len() && pending_key(old_s[j]) == x;
                    assert(new_s[j] == old_s[j]);
                }
            }
            assert(self.pending() =~= old(self).pending().insert(k, due_at_ms));
        }
    }
}

impl Default for RuntimeControlState {
    /// A fresh state: an operation log of 128 records, nothing frozen or
    /// pending, and operation ids starting at 1.
    fn default() -> (s: Self)
        ensures
            s.wf(),
            s.log().capacity_of() == 128,
            s.log().entries().len() == 0,
            s.frozen().is_empty(),
            s.pending().is_empty(),
            s.next_id() == 1,
    {
        let s = RuntimeControlState {
            operation_log: OperationLog::new(128),
            frozen_apps: Vec::new(),
            pending_freezes: Vec::new(),
            next_operation_id: 1,
        };
        assert(s.frozen() =~= Set::empty());
        assert(s.pending() =~= Map::empty());
        s
    }
}

/// The legacy modes that put an app under control: 10 terminates, 20, 21,
/// 30 and 31 freeze.
pub open spec fn is_control_mode(mode: i32) -> bool {
    mode == 10 || mode == 20 || mode == 21 || mode == 30 || mode == 31
}

/// Whether a legacy mode puts an app under control.
pub fn is_control_policy_mode(mode: i32) -> (r: bool)
    ensures
        r == is_control_mode(mode),
{
    mode == 10 || mode == 20 || mode == 21 || mode == 30 || mode == 31
}

/// The freeze mode of a legacy mode: 10 terminates, 20, 21, 30 and 31
/// freeze, 40 and 50 protect, anything else leaves the app free.
pub open spec fn legacy_freeze_mode(mode: i32) -> FreezeMode {
    if mode == 10 {
        FreezeMode::Terminate
    } else if mode == 20 || mode == 21 || mode == 30 || mode == 31 {
        FreezeMode::Freeze
    } else if mode == 40 || mode == 50 {
        FreezeMode::Protected
    } else {
        FreezeMode::Free
    }
}

/// The setting byte at `i`, or 0 past the end.
pub open spec fn setting_at(settings: Seq<u8>, i: int) -> nat {
    if i < settings.len() {
        settings[i] as nat
    } else {
        0
    }
}

/// The freeze delay of a record in milliseconds: the terminate delay
/// (setting 4) for mode 10, the freeze delay (setting 2) for the freeze
/// modes, in seconds.
pub open spec fn record_delay_ms(record: ManagerAppConfigRecord, settings: Seq<u8>) -> nat {
    if record.mode == 10 {
        setting_at(settings, 4) * 1000
    } else if record.mode == 20 || record.mode == 21 || record.mode == 30 || record.mode == 31 {
        setting_at(settings, 2) * 1000
    } else {
        0
    }
}

fn manager_policy_delay_ms(record: &ManagerAppConfigRecord, settings: &[u8]) -> (d: u64)
    ensures
        d as nat == record_delay_ms(*record, settings@),
{
    let seconds: u8 = if record.mode == 10 {
        if settings.len() > 4 {
            settings[4]
        } else {
            0
        }
    } else if record.mode == 20 || record.mode == 21 || record.mode == 30 || record.mode == 31 {
        if settings.len() > 2 {
            settings[2]
        } else {
            0
        }
    } else {
        0
    };
    seconds as u64 * 1000
}

/// The freeze delay of a record comes from the settings byte of its mode,
/// in seconds: byte 4 (the terminate delay) for mode 10, byte 2 (the freeze
/// delay) for the modes 20, 21, 30 and 31, and none for any other mode; a
/// byte past the end of the settings counts as 0.
pub proof fn law_record_delay_reads_its_mode_byte(
    record: ManagerAppConfigRecord,
    settings: Seq<u8>,
)
    ensures
        record.mode == 10 ==> record_delay_ms(record, settings) == (if settings.len() > 4 {
            settings[4] as int
        } else {
            0
        }) * 1000,
        (record.mode == 20 || record.mode == 21 || record.mode == 30 || record.mode == 31)
            ==> record_delay_ms(record, settings) == (if settings.len() > 2 {
            settings[2] as int
        } else {
            0
        }) * 1000,
        !(record.mode == 10 || record.mode == 20 || record.mode == 21 || record.mode == 30
            || record.mode == 31) ==> record_delay_ms(record, settings) == 0,
        record_delay_ms(record, settings) > 0 ==> is_control_mode(record.mode),
{
}

/// The legacy modes map to freeze modes as the manager numbers them: 10
/// terminates, 20, 21, 30 and 31 freeze, 40 and 50 protect, and any other
/// mode leaves the app free; the modes that a control pass acts on are
/// exactly those whose freeze mode freezes or terminates.
pub proof fn law_legacy_modes(mode: i32)
    ensures
        mode == 10 ==> legacy_freeze_mode(mode) == FreezeMode::Terminate,
        (mode == 20 || mode == 21 || mode == 30 || mode == 31) ==> legacy_freeze_mode(mode)
            == FreezeMode::Freeze,
        (mode == 40 || mode == 50) ==> legacy_freeze_mode(mode) == FreezeMode::Protected,
        !(mode == 10 || mode == 20 || mode == 21 || mode == 30 || mode == 31 || mode == 40 || mode
            == 50) ==> legacy_freeze_mode(mode) == FreezeMode::Free,
        is_control_mode(mode) <==> (legacy_freeze_mode(mode) == FreezeMode::Freeze
            || legacy_freeze_mode(mode) == FreezeMode::Terminate),
{
}

/// The step of a record: an app whose uid is in the foreground is handled
/// as foreground; otherwise one the pass froze stays frozen; otherwise an
/// app without a delay is decided at once, and one with a delay starts it,
/// waits while it runs, and is decided once it is due.
pub proof fn law_control_step_order(
    frozen: Set<(Seq<char>, u32)>,
    pending: Map<(Seq<char>, u32), u128>,
    key: (Seq<char>, u32),
    record: ManagerAppConfigRecord,
    settings: Seq<u8>,
    foreground_uids: Seq<u32>,
    timestamp_ms: u128,
)
    ensures
        foreground_uids.contains(record.uid) ==> control_step(
            frozen,
            pending,
            key,
            record,
            settings,
            foreground_uids,
            timestamp_ms,
        ) == ControlStep::Foreground,
        !foreground_uids.contains(record.uid) && frozen.contains(key) ==> control_step(
            frozen,
            pending,
            key,
            record,
            settings,
            foreground_uids,
            timestamp_ms,
        ) == ControlStep::StayFrozen,
        !foreground_uids.contains(record.uid) && !frozen.contains(key) && record_delay_ms(
            record,
            settings,
        ) == 0 ==> control_step(
            frozen,
            pending,
            key,
            record,
            settings,
            foreground_uids,
            timestamp_ms,
        ) == ControlStep::Decide,
        !foreground_uids.contains(record.uid) && !frozen.contains(key) && record_delay_ms(
            record,
            settings,
        ) > 0 && !pending.contains_key(key) ==> control_step(
            frozen,
            pending,
            key,
            record,
            settings,
            foreground_uids,
            timestamp_ms,
        ) == ControlStep::StartDelay,
        !foreground_uids.contains(record.uid) && !frozen.contains(key) && record_delay_ms(
            record,
            settings,
        ) > 0 && pending.contains_key(key) && timestamp_ms < pending[key] ==> control_step(
            frozen,
            pending,
            key,
            record,
            settings,
            foreground_uids,
            timestamp_ms,
        ) == ControlStep::Wait,
        !foreground_uids.contains(record.uid) && !frozen.contains(key) && record_delay_ms(
            record,
            settings,
        ) > 0 && pending.contains_key(key) && pending[key] <= timestamp_ms ==> control_step(
            frozen,
            pending,
            key,
            record,
            settings,
            foreground_uids,
            timestamp_ms,
        ) == ControlStep::Decide,
{
}

/// The policy that the control pass applies to a record: its legacy mode,
/// its foreground strategy, network restriction for mode 31, and signals
/// then skipping as fallbacks.
pub open spec fn is_record_policy(p: FreezePolicy, record: ManagerAppConfigRecord) -> bool {
    &&& p->mode == legacy_freeze_mode(record.mode)
    &&& p->delay_ms == 0
    &&& p->foreground_strategy == if record.permissive {
        ForegroundStrategy::Permissive
    } else {
        ForegroundStrategy::Strict
    }
    &&& p->allow_network_restriction == (record.mode == 31)
    &&& !p->allow_wakelock_restriction
    &&& p->fallback_strategy@ == seq![FallbackAction::Signal, FallbackAction::Skip]
    &&& p->updated_at_ms == 0
}

fn policy_from_record(record: &ManagerAppConfigRecord) -> (p: FreezePolicy)
    ensures
        is_record_policy(p, *record),
{
    let mode = if record.mode == 10 {
        FreezeMode::Terminate
    } else if record.mode == 20 || record.mode == 21 || record.mode == 30 || record.mode == 31 {
        FreezeMode::Freeze
    } else if record.mode == 40 || record.mode == 50 {
        FreezeMode::Protected
    } else {
        FreezeMode::Free
    };
    FreezePolicy::Selected {
        mode,
        delay_ms: 0,
        foreground_strategy: if record.permissive {
            ForegroundStrategy::Permissive
        } else {
            ForegroundStrategy::Strict
        },
        allow_network_restriction: record.mode == 31,
        allow_wakelock_restriction: false,
        fallback_strategy: vec![FallbackAction::Signal, FallbackAction::Skip],
        updated_at_ms: 0,
    }
}

/// The policy of a manager record freezes for the modes 20, 21, 30 and 31,
/// terminates for mode 10, and otherwise neither freezes nor terminates;
/// it restricts the network for mode 31 only, is permissive exactly when
/// the record is, has no delay of its own, and falls back by signalling,
/// then skipping.
pub proof fn law_record_policy(p: FreezePolicy, record: ManagerAppConfigRecord)
    requires
        is_record_policy(p, record),
    ensures
        p->mode == FreezeMode::Freeze <==> (record.mode == 20 || record.mode == 21 || record.mode
            == 30 || record.mode == 31),
        p->mode == FreezeMode::Terminate <==> record.mode == 10,
        p->mode == FreezeMode::Protected <==> (record.mode == 40 || record.mode == 50),
        p->allow_network_restriction <==> record.mode == 31,
        p->foreground_strategy == ForegroundStrategy::Permissive <==> record.permissive,
        p->delay_ms == 0,
        p->fallback_strategy@ == seq![FallbackAction::Signal, FallbackAction::Skip],
        !p->allow_wakelock_restriction,
{
}

/// How a decision is logged: a freeze as a successful freeze, a postponed
/// freeze as postponed, a signal or another freezer as a skipped fallback,
/// a termination as a skipped termination, and a skip as skipped.
pub proof fn law_fallback_outcomes()
    ensures
        fallback_outcome(DecisionAction::Freeze) == (ControlAction::Freeze, OperationResult::Success),
        fallback_outcome(DecisionAction::Postpone) == (
            ControlAction::Postpone,
            OperationResult::Postponed,
        ),
        fallback_outcome(DecisionAction::Signal) == (
            ControlAction::Fallback,
            OperationResult::Skipped,
        ),
        fallback_outcome(DecisionAction::AlternateFreezer) == (
            ControlAction::Fallback,
            OperationResult::Skipped,
        ),
        fallback_outcome(DecisionAction::Terminate) == (
            ControlAction::Terminate,
            OperationResult::Skipped,
        ),
        fallback_outcome(DecisionAction::Skip) == (ControlAction::Skip, OperationResult::Skipped),
{
}

/// The pass decides with fresh evidence and the binder freezer, and with
/// the cgroup freezer exactly when there are processes and each has a
/// `cgroup.freeze` file.
pub proof fn law_pass_environment(ps: Seq<RuntimeProcess>)
    ensures
        pass_environment(ps).cgroup_available <==> (ps.len() > 0 && forall|i: int|
            0 <= i < ps.len() ==> (#[trigger] ps[i]).cgroup_freeze_path is Some),
        pass_environment(ps).binder_available,
        pass_environment(ps).hook_fresh,
        pass_environment(ps).screen_state_available,
        pass_environment(ps).network_available,
        pass_environment(ps).wakelock_available,
{
}

/// A record in no control mode is never frozen, signalled or terminated:
/// with its policy the backend skips the app, whatever the environment, the
/// app and its processes.
pub proof fn law_uncontrolled_record_is_skipped(
    record: ManagerAppConfigRecord,
    policy: FreezePolicy,
    env: BackendEnvironment,
    app: ManagedApp,
    ps: Seq<RuntimeProcess>,
)
    requires
        is_record_policy(policy, record),
        !(record.mode == 10 || record.mode == 20 || record.mode == 21 || record.mode == 30
            || record.mode == 31),
    ensures
        freeze_decision(env, app, policy, ps).0 == DecisionAction::Skip,
{
}

/// The app that the control pass manages for a record.
pub open spec fn is_record_app(app: ManagedApp, package_name: Seq<char>, uid: u32) -> bool {
    &&& app.package_name@ == package_name
    &&& app.user_id == 0
    &&& app.uid == uid
    &&& app.label@ == package_name
    &&& !app.is_system_app
    &&& app.protected_reason is None
    &&& app.policy_id@ == "manager-v1"@
    &&& app.last_seen_baseline@ == "runtime"@
}

fn managed_app_from_record(package_name: &String, uid: u32) -> (app: ManagedApp)
    ensures
        is_record_app(app, package_name@, uid),
{
    ManagedApp {
        package_name: package_name.clone(),
        user_id: 0,
        uid,
        label: package_name.clone(),
        is_system_app: false,
        protected_reason: None,
        policy_id: "manager-v1".to_owned(),
        last_seen_baseline: "runtime".to_owned(),
    }
}

/// Whether every process has a cgroup freeze file, and there is at least
/// one.
pub open spec fn all_have_freeze_file(ps: Seq<RuntimeProcess>) -> bool {
    ps.len() > 0 && forall|i: int| 0 <= i < ps.len() ==> (#[trigger] ps[i]).cgroup_freeze_path is Some
}

fn all_have_freeze_file_exec(processes: &[RuntimeProcess]) -> (r: bool)
    ensures
        r == all_have_freeze_file(processes@),
{
    if processes.len() == 0 {
        return false;
    }
    let mut i: usize = 0;
    while i < processes.len()
        invariant
            i <= processes@.len(),
            forall|j: int| 0 <= j < i ==> (#[trigger] processes@[j]).cgroup_freeze_path is Some,
        decreases processes@.len() - i,
    {
        if processes[i].cgroup_freeze_path.is_none() {
            return false;
        }
        i = i + 1;
    }
    true
}

/// The environment the control pass decides with: the cgroup freezer is
/// usable when every process has a freeze file; everything else is taken as
/// available.
pub open spec fn pass_environment(ps: Seq<RuntimeProcess>) -> BackendEnvironment {
    BackendEnvironment {
        cgroup_available: all_have_freeze_file(ps),
        binder_available: true,
        network_available: true,
        wakelock_available: true,
        screen_state_available: true,
        hook_fresh: true,
    }
}

fn backend_environment(processes: &[RuntimeProcess]) -> (e: BackendEnvironment)
    ensures
        e == pass_environment(processes@),
{
    BackendEnvironment {
        cgroup_available: all_have_freeze_file_exec(processes),
        binder_available: true,
        network_available: true,
        wakelock_available: true,
        screen_state_available: true,
        hook_fresh: true,
    }
}

/// The backend named in the log: `cgroup.freeze` when every process has a
/// freeze file, `signal-control-pass` otherwise.
pub open spec fn pass_backend_name(ps: Seq<RuntimeProcess>) -> Seq<char> {
    if all_have_freeze_file(ps) {
        "cgroup.freeze"@
    } else {
        "signal-control-pass"@
    }
}

fn backend_name(processes: &[RuntimeProcess]) -> (s: &'static str)
    ensures
        s@ == pass_backend_name(processes@),
{
    if all_have_freeze_file_exec(processes) {
        "cgroup.freeze"
    } else {
        "signal-control-pass"
    }
}

/// The binder evidence of the processes that report a binder state, as
/// `pid<pid>:<state>`.
pub open spec fn binder_evidence(ps: Seq<RuntimeProcess>) -> Seq<Seq<char>>
    decreases ps.len(),
{
    if ps.len() == 0 {
        Seq::empty()
    } else {
        let rest = binder_evidence(ps.drop_last());
        match ps.last().binder_state {
            Some(state) => rest.push("pid"@ + signed_decimal(ps.last().pid as int) + ":"@ + state@),
            None => rest,
        }
    }
}

/// The details of a control-pass operation: the process count, then the
/// binder evidence separated by `|` when there is any.
pub open spec fn pass_details(ps: Seq<RuntimeProcess>) -> Seq<char> {
    let evidence = binder_evidence(ps);
    "process_count="@ + decimal(ps.len()) + if evidence.len() > 0 {
        " idle_evidence="@ + join(evidence, "|"@)
    } else {
        Seq::empty()
    }
}

fn operation_details(processes: &[RuntimeProcess]) -> (s: String)
    ensures
        s@ == pass_details(processes@),
{
    let mut evidence = String::new();
    let mut any = false;
    let mut i: usize = 0;
    while i < processes.len()
        invariant
            i <= processes@.len(),
            any == (binder_evidence(processes@.take(i as int)).len() > 0),
            evidence@ == join(binder_evidence(processes@.take(i as int)), "|"@),
        decreases processes@.len() - i,
    {
        let p = &processes[i];
        let ghost before = evidence@;
        let ghost prefix = processes@.take(i as int);
        proof {
            assert(processes@.take(i + 1).drop_last() == prefix);
            assert(processes@.take(i + 1).last() == *p);
        }
        match &p.binder_state {
            Some(state) => {
                if any {
                    evidence.push('|');
                }
                let ghost mark = evidence@;
                evidence.append("pid");
                push_signed_decimal(&mut evidence, p.pid as i128);
                evidence.append(":");
                let cs = chars_of(state.as_str());
                push_chars(&mut evidence, cs.as_slice());
                proof {
                    let item = "pid"@ + signed_decimal(p.pid as int) + ":"@ + state@;
                    assert(evidence@ == mark + item);
                    let parts = binder_evidence(processes@.take(i + 1));
                    assert(parts == binder_evidence(prefix).push(item));
                    assert(parts.drop_last() == binder_evidence(prefix));
                    if any {
                        reveal_strlit("|");
                        assert(mark == before + "|"@);
                    } else {
                        assert(before == Seq::<char>::empty());
                    }
                }
                any = true;
            },
            None => {},
        }
        i = i + 1;
    }
    assert(processes@.take(processes@.len() as int) == processes@);
    let mut s = "process_count=".to_owned();
    push_decimal(&mut s, processes.len() as u128);
    if any {
        s.append(" idle_evidence=");
        let cs = chars_of(evidence.as_str());
        push_chars(&mut s, cs.as_slice());
    }
    s
}

/// The action and result logged for a fallback decision after a failed
/// freeze.
pub open spec fn fallback_outcome(action: DecisionAction) -> (ControlAction, OperationResult) {
    match action {
        DecisionAction::Freeze => (ControlAction::Freeze, OperationResult::Success),
        DecisionAction::Postpone => (ControlAction::Postpone, OperationResult::Postponed),
        DecisionAction::AlternateFreezer | DecisionAction::Signal => (
            ControlAction::Fallback,
            OperationResult::Skipped,
        ),
        DecisionAction::Terminate => (ControlAction::Terminate, OperationResult::Skipped),
        DecisionAction::Skip => (ControlAction::Skip, OperationResult::Skipped),
    }
}

fn operation_from_fallback(action: DecisionAction) -> (r: (ControlAction, OperationResult))
    ensures
        r == fallback_outcome(action),
{
    match action {
        DecisionAction::Freeze => (ControlAction::Freeze, OperationResult::Success),
        DecisionAction::Postpone => (ControlAction::Postpone, OperationResult::Postponed),
        DecisionAction::AlternateFreezer | DecisionAction::Signal => (
            ControlAction::Fallback,
            OperationResult::Skipped,
        ),
        DecisionAction::Terminate => (ControlAction::Terminate, OperationResult::Skipped),
        DecisionAction::Skip => (ControlAction::Skip, OperationResult::Skipped),
    }
}

/// The processes as the pass hands them to the freezer: pending freeze.
pub open spec fn as_pending(ps: Seq<RuntimeProcess>) -> Seq<RuntimeProcess> {
    ps.map_values(|p: RuntimeProcess| RuntimeProcess { control_state: ControlState::PendingFreeze, ..p })
}

fn mark_pending(processes: &Vec<RuntimeProcess>) -> (v: Vec<RuntimeProcess>)
    ensures
        v@ == as_pending(processes@),
{
    let mut v: Vec<RuntimeProcess> = Vec::new();
    let mut i: usize = 0;
    while i < processes.len()
        invariant
            i <= processes@.len(),
            v@ == as_pending(processes@.take(i as int)),
        decreases processes@.len() - i,
    {
        let p = &processes[i];
        v.push(RuntimeProcess {
            pid: p.pid,
            uid: p.uid,
            package_name: p.package_name.clone(),
            process_name: p.process_name.clone(),
            proc_state: p.proc_state,
            control_state: ControlState::PendingFreeze,
            cgroup_freeze_path: match &p.cgroup_freeze_path {
                Some(path) => Some(path.clone()),
                None => None,
            },
            binder_state: match &p.binder_state {
                Some(state) => Some(state.clone()),
                None => None,
            },
            last_seen_at_ms: p.last_seen_at_ms,
        });
        i = i + 1;
        assert(processes@.take(i as int) == processes@.take(i - 1 as int).push(*p));
        assert(v@ == as_pending(processes@.take(i as int)));
    }
    assert(processes@.take(processes@.len() as int) == processes@);
    v
}

/// The pids of processes of the uid that appeared since the initial
/// processes were seen, in order.
pub open spec fn new_pids_of(
    initial: Seq<RuntimeProcess>,
    current: Seq<RuntimeProcess>,
    uid: u32,
) -> Seq<i32>
    decreases current.len(),
{
    if current.len() == 0 {
        Seq::empty()
    } else {
        let rest = new_pids_of(initial, current.drop_last(), uid);
        let p = current.last();
        if p.uid == uid && !pids_of(initial).contains(p.pid) {
            rest.push(p.pid)
        } else {
            rest
        }
    }
}

fn new_pids(initial: &[RuntimeProcess], current: &[RuntimeProcess], uid: u32) -> (v: Vec<i32>)
    ensures
        v@ == new_pids_of(initial@, current@, uid),
{
    let before = pid_list(initial);
    let mut v: Vec<i32> = Vec::new();
    let mut i: usize = 0;
    while i < current.len()
        invariant
            i <= current@.len(),
            before@ == pids_of(initial@),
            v@ == new_pids_of(initial@, current@.take(i as int), uid),
        decreases current@.len() - i,
    {
        let p = &current[i];
        let mut seen = false;
        let mut j: usize = 0;
        while j < before.len()
            invariant
                j <= before@.len(),
                seen == (exists|k: int| 0 <= k < j && before@[k] == p.pid),
            decreases before@.len() - j,
        {
            if before[j] == p.pid {
                seen = true;
            }
            j = j + 1;
        }
        proof {
            assert(current@.take(i + 1).drop_last() == current@.take(i as int));
            assert(current@.take(i + 1).last() == *p);
            if seen {
                let k = choose|k: int| 0 <= k < before@.len() && before@[k] == p.pid;
                assert(pids_of(initial@).contains(p.pid));
            }
        }
        if p.uid == uid && !seen {
            v.push(p.pid);
        }
        i = i + 1;
    }
    assert(current@.take(current@.len() as int) == current@);
    v
}

/// The pids in `Debug` notation: `[1, 2]`.
pub open spec fn debug_pids(pids: Seq<i32>) -> Seq<char> {
    "["@ + join(pids.map_values(|n: i32| signed_decimal(n as int)), ", "@) + "]"@
}

fn push_debug_pids(out: &mut String, pids: &[i32])
    ensures
        final(out)@ == old(out)@ + debug_pids(pids@),
{
    let ghost f = |n: i32| signed_decimal(n as int);
    out.push('[');
    let ghost start = out@;
    let mut i: usize = 0;
    while i < pids.len()
        invariant
            i <= pids@.len(),
            f == (|n: i32| signed_decimal(n as int)),
            out@ == start + join(pids@.take(i as int).map_values(f), ", "@),
        decreases pids@.len() - i,
    {
        let ghost before = out@;
        if i > 0 {
            out.append(", ");
        }
        push_signed_decimal(out, pids[i] as i128);
        proof {
            let parts = pids@.take(i + 1).map_values(f);
            assert(parts.drop_last() == pids@.take(i as int).map_values(f));
            if i == 0 {
                assert(join(pids@.take(0).map_values(f), ", "@) == Seq::<char>::empty());
            }
        }
        i = i + 1;
    }
    out.push(']');
    proof {
        assert(pids@.take(pids@.len() as int) == pids@);
        reveal_strlit("[");
        reveal_strlit("]");
    }
}

/// What the control pass does with a record once it knows the app's
/// identity.
#[derive(Debug, Clone, Copy, PartialEq, Eq, Structural)]
pub enum ControlStep {
    /// The uid is in the foreground: clear a pending freeze and thaw the app
    /// if the pass froze it.
    Foreground,
    /// The pass froze the app before; leave it.
    StayFrozen,
    /// The app's freeze delay has not elapsed yet.
    Wait,
    /// Start the app's freeze delay.
    StartDelay,
    /// Ask the backend for a decision.
    Decide,
}

/// The step for a record of an app with the given identity.
pub open spec fn control_step(
    frozen: Set<(Seq<char>, u32)>,
    pending: Map<(Seq<char>, u32), u128>,
    key: (Seq<char>, u32),
    record: ManagerAppConfigRecord,
    settings: Seq<u8>,
    foreground_uids: Seq<u32>,
    timestamp_ms: u128,
) -> ControlStep {
    if foreground_uids.contains(record.uid) {
        ControlStep::Foreground
    } else if frozen.contains(key) {
        ControlStep::StayFrozen
    } else if record_delay_ms(record, settings) > 0 {
        if pending.contains_key(key) {
            if timestamp_ms < pending[key] {
                ControlStep::Wait
            } else {
                ControlStep::Decide
            }
        } else {
            ControlStep::StartDelay
        }
    } else {
        ControlStep::Decide
    }
}

fn contains_uid(uids: &[u32], uid: u32) -> (r: bool)
    ensures
        r == uids@.contains(uid),
{
    let mut i: usize = 0;
    while i < uids.len()
        invariant
            i <= uids@.len(),
            forall|j: int| 0 <= j < i ==> uids@[j] != uid,
        decreases uids@.len() - i,
    {
        if uids[i] == uid {
            assert(uids@[i as int] == uid);
            return true;
        }
        i = i + 1;
    }
    false
}

/// An operation of the control pass before it is stamped: the identity,
/// the pids and details of the processes, the backend they allow, the
/// action, the result and the reason.
pub open spec fn is_pass_operation(
    op: ControlOperation,
    package_name: Seq<char>,
    uid: u32,
    ps: Seq<RuntimeProcess>,
    action: ControlAction,
    result: OperationResult,
    reason: Seq<char>,
) -> bool {
    &&& op.operation_id == 0
    &&& op.timestamp_ms == 0
    &&& op.package_name@ == package_name
    &&& op.uid == uid
    &&& op.pid_list@ == pids_of(ps)
    &&& op.action == action
    &&& op.backend@ == pass_backend_name(ps)
    &&& op.reason@ == reason
    &&& op.result == result
    &&& op.details@ == pass_details(ps)
}

fn pass_operation(
    package_name: &String,
    uid: u32,
    processes: &[RuntimeProcess],
    action: ControlAction,
    result: OperationResult,
    reason: String,
) -> (op: ControlOperation)
    ensures
        is_pass_operation(op, package_name@, uid, processes@, action, result, reason@),
{
    ControlOperation {
        operation_id: 0,
        timestamp_ms: 0,
        package_name: package_name.clone(),
        uid,
        pid_list: pid_list(processes),
        action,
        backend: backend_name(processes).to_owned(),
        reason,
        result,
        details: operation_details(processes),
    }
}

/// Whether every app the pass froze was frozen before, or is out of the
/// foreground, has a control record for its uid, and had its freeze delay
/// elapse by the pass's time.
pub open spec fn frozen_only_when_allowed(
    before: RuntimeControlState,
    after: RuntimeControlState,
    app_config: Seq<ManagerAppConfigRecord>,
    settings: Seq<u8>,
    foreground_uids: Seq<u32>,
    timestamp_ms: u128,
) -> bool {
    forall|k: (Seq<char>, u32)|
        #[trigger] after.frozen().contains(k) ==> before.frozen().contains(k) || {
            &&& !foreground_uids.contains(k.1)
            &&& exists|r: int|
                0 <= r < app_config.len() && (#[trigger] app_config[r]).uid == k.1
                    && is_control_mode(app_config[r].mode) && (record_delay_ms(
                    app_config[r],
                    settings,
                ) == 0 || (before.pending().contains_key(k) && before.pending()[k]
                    <= timestamp_ms))
        }
}

/// Whether every pending freeze was pending before with the same time, or
/// falls due after the pass's time.
pub open spec fn pending_only_later(
    before: RuntimeControlState,
    after: RuntimeControlState,
    timestamp_ms: u128,
) -> bool {
    forall|k: (Seq<char>, u32)|
        #[trigger] after.pending().contains_key(k) ==> (before.pending().contains_key(k)
            && after.pending()[k] == before.pending()[k]) || after.pending()[k] > timestamp_ms
}

/// Whether every app that left the frozen set has its uid in the
/// foreground: the pass thaws an app only when it comes to the foreground.
pub open spec fn thawed_only_in_foreground(
    before: RuntimeControlState,
    after: RuntimeControlState,
    foreground_uids: Seq<u32>,
) -> bool {
    forall|k: (Seq<char>, u32)|
        #[trigger] before.frozen().contains(k) && !after.frozen().contains(k)
            ==> foreground_uids.contains(k.1)
}

/// What the control pass keeps true from record to record.
pub open spec fn pass_invariant(
    before: RuntimeControlState,
    after: RuntimeControlState,
    app_config: Seq<ManagerAppConfigRecord>,
    settings: Seq<u8>,
    foreground_uids: Seq<u32>,
    timestamp_ms: u128,
) -> bool {
    &&& after.wf()
    &&& frozen_only_when_allowed(before, after, app_config, settings, foreground_uids, timestamp_ms)
    &&& pending_only_later(before, after, timestamp_ms)
    &&& thawed_only_in_foreground(before, after, foreground_uids)
    &&& after.log().capacity_of() == before.log().capacity_of()
}

/// The id after `id`, wrapping from the largest id to 0.
pub open spec fn next_operation_id(id: u64) -> u64 {
    if id == u64::MAX {
        0
    } else {
        (id + 1) as u64
    }
}

/// An operation with its id and time set.
pub open spec fn stamped(op: ControlOperation, id: u64, timestamp_ms: u128) -> ControlOperation {
    ControlOperation { operation_id: id, timestamp_ms, ..op }
}

/// The records of a log of the given capacity after one more record: the
/// oldest is dropped when the log is full.
pub open spec fn log_pushed(
    entries: Seq<ControlOperation>,
    capacity: nat,
    op: ControlOperation,
) -> Seq<ControlOperation> {
    if entries.len() >= capacity {
        entries.drop_first().push(op)
    } else {
        entries.push(op)
    }
}

impl RuntimeControlState {
    /// The step for a record of an app with the given identity.
    pub fn plan_control_step(
        &self,
        package_name: &String,
        record: &ManagerAppConfigRecord,
        settings: &[u8],
        foreground_uids: &[u32],
        timestamp_ms: u128,
    ) -> (step: ControlStep)
        requires
            self.wf(),
        ensures
            step == control_step(
                self.frozen(),
                self.pending(),
                (package_name@, record.uid),
                *record,
                settings@,
                foreground_uids@,
                timestamp_ms,
            ),
    {
        if contains_uid(foreground_uids, record.uid) {
            return ControlStep::Foreground;
        }
        if self.is_frozen(package_name, record.uid) {
            return ControlStep::StayFrozen;
        }
        let delay = manager_policy_delay_ms(record, settings);
        if delay > 0 {
            match self.pending_due(package_name, record.uid) {
                Some(due) => {
                    if timestamp_ms < due {
                        ControlStep::Wait
                    } else {
                        ControlStep::Decide
                    }
                },
                None => ControlStep::StartDelay,
            }
        } else {
            ControlStep::Decide
        }
    }

    fn log_operation(&mut self, operation: ControlOperation, timestamp_ms: u128)
        requires
            old(self).wf(),
        ensures
            final(self).wf(),
            final(self).frozen() == old(self).frozen(),
            final(self).pending() == old(self).pending(),
            final(self).next_id() == next_operation_id(old(self).next_id()),
            final(self).log().capacity_of() == old(self).log().capacity_of(),
            final(self).log().entries() == log_pushed(
                old(self).log().entries(),
                old(self).log().capacity_of(),
                stamped(operation, old(self).next_id(), timestamp_ms),
            ),
    {
        let mut operation = operation;
        operation.operation_id = self.next_operation_id;
        self.next_operation_id = self.next_operation_id.wrapping_add(1);
        operation.timestamp_ms = timestamp_ms;
        self.operation_log.push(operation);
    }
}

fn uid_name(uid: u32) -> (s: String)
    ensures
        s@ == "uid"@ + decimal(uid as nat),
{
    let mut s = "uid".to_owned();
    push_decimal(&mut s, uid as u128);
    s
}

/// What the outside calls of a control pass gave for one record: the
/// processes found for its uid, whether a freeze call failed, and the
/// processes found when the uid was scanned again after the freeze; with
/// the operation the pass logged for the record, if any.
pub struct PassOutcome {
    pub processes: Vec<RuntimeProcess>,
    pub freeze_failed: bool,
    pub freeze_error: Option<DaemonError>,
    pub rescan: Vec<RuntimeProcess>,
    pub logged: Option<ControlOperation>,
}

/// The name under which the pass asks for the processes of a uid.
pub open spec fn uid_text(uid: u32) -> Seq<char> {
    "uid"@ + decimal(uid as nat)
}

/// The app the pass manages for a package name and uid.
pub open spec fn record_app(package_name: Seq<char>, uid: u32) -> ManagedApp {
    choose|app: ManagedApp| is_record_app(app, package_name, uid)
}

/// The policy the pass applies for a record.
pub open spec fn record_policy(record: ManagerAppConfigRecord) -> FreezePolicy {
    choose|p: FreezePolicy| is_record_policy(p, record)
}

/// What the backend decides for a record's app and its processes, marked
/// pending.
pub open spec fn pass_decision(
    record: ManagerAppConfigRecord,
    package_name: Seq<char>,
    pending_processes: Seq<RuntimeProcess>,
) -> DecisionAction {
    freeze_decision(
        pass_environment(pending_processes),
        record_app(package_name, record.uid),
        record_policy(record),
        pending_processes,
    ).0
}

/// The identity the pass handles a record under: the package name of the
/// first process found, and the record's uid.
pub open spec fn outcome_key(record: ManagerAppConfigRecord, out: PassOutcome) -> (Seq<char>, u32) {
    (out.processes@[0].package_name@, record.uid)
}

/// The frozen apps and pending freezes after one record of a pass.
pub open spec fn record_sets(
    frozen: Set<(Seq<char>, u32)>,
    pending: Map<(Seq<char>, u32), u128>,
    record: ManagerAppConfigRecord,
    out: PassOutcome,
    settings: Seq<u8>,
    foreground_uids: Seq<u32>,
    timestamp_ms: u128,
) -> (Set<(Seq<char>, u32)>, Map<(Seq<char>, u32), u128>) {
    if !is_control_mode(record.mode) || out.processes@.len() == 0 {
        (frozen, pending)
    } else {
        let key = outcome_key(record, out);
        match control_step(frozen, pending, key, record, settings, foreground_uids, timestamp_ms) {
            ControlStep::Foreground => (frozen.remove(key), pending.remove(key)),
            ControlStep::StayFrozen | ControlStep::Wait => (frozen, pending),
            ControlStep::StartDelay => (
                frozen,
                pending.insert(key, (timestamp_ms + record_delay_ms(record, settings)) as u128),
            ),
            ControlStep::Decide => {
                let pps = as_pending(out.processes@);
                match pass_decision(record, key.0, pps) {
                    DecisionAction::Freeze => if out.freeze_failed {
                        (frozen, pending)
                    } else if new_pids_of(pps, out.rescan@, record.uid).len() > 0 {
                        (frozen, pending.remove(key))
                    } else {
                        (frozen.insert(key), pending.remove(key))
                    },
                    DecisionAction::Signal => (frozen.insert(key), pending.remove(key)),
                    _ => (frozen, pending),
                }
            },
        }
    }
}

/// Whether the discovery callback gave these processes for the uid.
pub open spec fn discovered<D: FnMut(&str, u32) -> Result<Vec<RuntimeProcess>, DaemonError>>(
    discover: D,
    uid: u32,
    processes: Vec<RuntimeProcess>,
) -> bool {
    exists|name: &str|
        name@ == uid_text(uid) && #[trigger] call_ensures(
            discover,
            (name, uid),
            Ok::<Vec<RuntimeProcess>, DaemonError>(processes),
        )
}

/// Whether a callback succeeded for every process.
pub open spec fn all_succeeded<F: FnMut(&RuntimeProcess) -> Result<(), DaemonError>>(
    f: F,
    ps: Seq<RuntimeProcess>,
) -> bool {
    forall|j: int| 0 <= j < ps.len() ==> call_ensures(f, (&ps[j],), Ok::<(), DaemonError>(()))
}

/// Whether a callback was called on every process, in order, whatever
/// each call returned.
pub open spec fn all_called<F: FnMut(&RuntimeProcess) -> Result<(), DaemonError>>(
    f: F,
    ps: Seq<RuntimeProcess>,
) -> bool {
    exists|rs: Seq<Result<(), DaemonError>>|
        rs.len() == ps.len() && forall|j: int|
            0 <= j < rs.len() ==> call_ensures(f, (&ps[j],), #[trigger] rs[j])
}

/// Whether a callback, called on the processes in order, succeeded for
/// each process before some process and failed with `e` on that one.
pub open spec fn failed_at<F: FnMut(&RuntimeProcess) -> Result<(), DaemonError>>(
    f: F,
    ps: Seq<RuntimeProcess>,
    e: DaemonError,
) -> bool {
    exists|j: int|
        0 <= j < ps.len() && (forall|k: int|
            0 <= k < j ==> call_ensures(f, (&ps[k],), Ok::<(), DaemonError>(())))
            && #[trigger] call_ensures(f, (&ps[j],), Err::<(), DaemonError>(e))
}

/// Whether the outcome of a record is what the callbacks gave, for a pass
/// that went on past it: the processes were discovered under the uid's
/// name; a freeze attempt failed on some process exactly when the outcome
/// says so, and otherwise the uid was scanned again; when that scan found
/// processes that the freeze did not cover, every process it found was
/// handed to the thaw callback, so that no app stays half frozen; a signal
/// freeze, and the thaw of a frozen app in the foreground, succeeded for
/// every process.
pub open spec fn record_fits<
    D: FnMut(&str, u32) -> Result<Vec<RuntimeProcess>, DaemonError>,
    F: FnMut(&RuntimeProcess) -> Result<(), DaemonError>,
    U: FnMut(&RuntimeProcess) -> Result<(), DaemonError>,
>(
    frozen: Set<(Seq<char>, u32)>,
    pending: Map<(Seq<char>, u32), u128>,
    record: ManagerAppConfigRecord,
    out: PassOutcome,
    discover: D,
    freeze: F,
    unfreeze: U,
    settings: Seq<u8>,
    foreground_uids: Seq<u32>,
    timestamp_ms: u128,
) -> bool {
    is_control_mode(record.mode) ==> {
        &&& discovered(discover, record.uid, out.processes)
        &&& out.processes@.len() > 0 ==> {
            let key = outcome_key(record, out);
            let step = control_step(
                frozen,
                pending,
                key,
                record,
                settings,
                foreground_uids,
                timestamp_ms,
            );
            let pps = as_pending(out.processes@);
            &&& (step == ControlStep::Foreground && frozen.contains(key)) ==> all_succeeded(
                unfreeze,
                out.processes@,
            )
            &&& (step == ControlStep::Decide && pass_decision(record, key.0, pps)
                == DecisionAction::Freeze) ==> {
                &&& out.freeze_failed ==> (out.freeze_error matches Some(e) && failed_at(
                    freeze,
                    pps,
                    e,
                ))
                &&& !out.freeze_failed ==> all_succeeded(freeze, pps) && discovered(
                    discover,
                    record.uid,
                    out.rescan,
                )
                &&& (!out.freeze_failed && new_pids_of(pps, out.rescan@, record.uid).len() > 0)
                    ==> all_called(unfreeze, out.rescan@)
            }
            &&& (step == ControlStep::Decide && pass_decision(record, key.0, pps)
                == DecisionAction::Signal) ==> all_succeeded(freeze, pps)
        }
    }
}

/// An operation of the pass that records a thaw of an app in the foreground.
pub open spec fn thaw_operation(
    op: ControlOperation,
    package_name: Seq<char>,
    uid: u32,
    ps: Seq<RuntimeProcess>,
) -> bool {
    &&& op.package_name@ == package_name
    &&& op.uid == uid
    &&& op.pid_list@ == pids_of(ps)
    &&& op.action == ControlAction::Unfreeze
    &&& op.backend@ == pass_backend_name(ps)
    &&& op.reason@ == "foreground uid active"@
    &&& op.result == OperationResult::Success
    &&& op.details@ == process_count_text(ps.len())
}

/// An operation of the pass with any reason.
pub open spec fn pass_operation_shape(
    op: ControlOperation,
    package_name: Seq<char>,
    uid: u32,
    ps: Seq<RuntimeProcess>,
    action: ControlAction,
    result: OperationResult,
) -> bool {
    is_pass_operation(op, package_name, uid, ps, action, result, op.reason@)
}

/// The operation of a freeze that new processes of the uid overtook.
pub open spec fn partial_operation(
    op: ControlOperation,
    package_name: Seq<char>,
    uid: u32,
    rescan: Seq<RuntimeProcess>,
    reason: Seq<char>,
    added: Seq<i32>,
) -> bool {
    &&& op.package_name@ == package_name
    &&& op.uid == uid
    &&& op.pid_list@ == pids_of(rescan)
    &&& op.action == ControlAction::Freeze
    &&& op.backend@ == pass_backend_name(rescan)
    &&& op.reason@ == reason + "; new same-uid process appeared after freeze"@
    &&& op.result == OperationResult::Partial
    &&& op.details@ == pass_details(rescan) + " new_pids="@ + debug_pids(added)
}

/// Whether the operation an outcome records is the one the pass logs for
/// the record: none for a record it does not act on, else the thaw, the
/// start of the freeze delay, or the backend's decision and how applying it
/// went.
pub open spec fn record_logged(
    frozen: Set<(Seq<char>, u32)>,
    pending: Map<(Seq<char>, u32), u128>,
    record: ManagerAppConfigRecord,
    out: PassOutcome,
    settings: Seq<u8>,
    foreground_uids: Seq<u32>,
    timestamp_ms: u128,
) -> bool {
    if !is_control_mode(record.mode) || out.processes@.len() == 0 {
        out.logged is None
    } else {
        let key = outcome_key(record, out);
        let ps = out.processes@;
        let pps = as_pending(ps);
        match control_step(frozen, pending, key, record, settings, foreground_uids, timestamp_ms) {
            ControlStep::Foreground => if frozen.contains(key) {
                out.logged matches Some(op) && thaw_operation(op, key.0, record.uid, ps)
            } else {
                out.logged is None
            },
            ControlStep::StayFrozen | ControlStep::Wait => out.logged is None,
            ControlStep::StartDelay => out.logged matches Some(op) && is_pass_operation(
                op,
                key.0,
                record.uid,
                ps,
                ControlAction::Postpone,
                OperationResult::Postponed,
                "pending freeze delay "@ + decimal(record_delay_ms(record, settings)) + "ms"@,
            ),
            ControlStep::Decide => {
                let d = freeze_decision(
                    pass_environment(pps),
                    record_app(key.0, record.uid),
                    record_policy(record),
                    pps,
                );
                out.logged matches Some(op) && match d.0 {
                    DecisionAction::Freeze => if out.freeze_failed {
                        &&& pass_operation_shape(
                            op,
                            key.0,
                            record.uid,
                            pps,
                            fallback_outcome(fallback_action(first_fallback(record_policy(record)))).0,
                            fallback_outcome(fallback_action(first_fallback(record_policy(record)))).1,
                        )
                        &&& out.freeze_error matches Some(e)
                        &&& op.reason@ == apply_failure_reason(out.freeze_error->0)
                    } else if new_pids_of(pps, out.rescan@, record.uid).len() > 0 {
                        partial_operation(
                            op,
                            key.0,
                            record.uid,
                            out.rescan@,
                            d.1,
                            new_pids_of(pps, out.rescan@, record.uid),
                        )
                    } else {
                        is_pass_operation(
                            op,
                            key.0,
                            record.uid,
                            pps,
                            ControlAction::Freeze,
                            OperationResult::Success,
                            d.1,
                        )
                    },
                    DecisionAction::Signal => is_pass_operation(
                        op,
                        key.0,
                        record.uid,
                        pps,
                        ControlAction::Freeze,
                        OperationResult::Success,
                        d.1,
                    ),
                    other => is_pass_operation(
                        op,
                        key.0,
                        record.uid,
                        pps,
                        fallback_outcome(other).0,
                        fallback_outcome(other).1,
                        d.1,
                    ),
                }
            },
        }
    }
}

/// The log records and the next operation id after the pass logged the
/// outcomes' operations, each stamped with the next id and the pass's time.
pub open spec fn pass_log(
    entries: Seq<ControlOperation>,
    capacity: nat,
    next_id: u64,
    outs: Seq<PassOutcome>,
    timestamp_ms: u128,
) -> (Seq<ControlOperation>, u64)
    decreases outs.len(),
{
    if outs.len() == 0 {
        (entries, next_id)
    } else {
        let prev = pass_log(entries, capacity, next_id, outs.drop_last(), timestamp_ms);
        match outs.last().logged {
            Some(op) => (
                log_pushed(prev.0, capacity, stamped(op, prev.1, timestamp_ms)),
                next_operation_id(prev.1),
            ),
            None => prev,
        }
    }
}

/// The frozen apps and pending freezes after the records, given what the
/// callbacks gave for each.
pub open spec fn pass_sets(
    frozen: Set<(Seq<char>, u32)>,
    pending: Map<(Seq<char>, u32), u128>,
    records: Seq<ManagerAppConfigRecord>,
    outs: Seq<PassOutcome>,
    settings: Seq<u8>,
    foreground_uids: Seq<u32>,
    timestamp_ms: u128,
) -> (Set<(Seq<char>, u32)>, Map<(Seq<char>, u32), u128>)
    decreases records.len(),
{
    if records.len() == 0 || outs.len() == 0 {
        (frozen, pending)
    } else {
        let prev = pass_sets(
            frozen,
            pending,
            records.drop_last(),
            outs.drop_last(),
            settings,
            foreground_uids,
            timestamp_ms,
        );
        record_sets(
            prev.0,
            prev.1,
            records.last(),
            outs.last(),
            settings,
            foreground_uids,
            timestamp_ms,
        )
    }
}

/// Whether each outcome is what the callbacks gave for its record, in a
/// pass over all the records.
pub open spec fn pass_fits<
    D: FnMut(&str, u32) -> Result<Vec<RuntimeProcess>, DaemonError>,
    F: FnMut(&RuntimeProcess) -> Result<(), DaemonError>,
    U: FnMut(&RuntimeProcess) -> Result<(), DaemonError>,
>(
    frozen: Set<(Seq<char>, u32)>,
    pending: Map<(Seq<char>, u32), u128>,
    records: Seq<ManagerAppConfigRecord>,
    outs: Seq<PassOutcome>,
    discover: D,
    freeze: F,
    unfreeze: U,
    settings: Seq<u8>,
    foreground_uids: Seq<u32>,
    timestamp_ms: u128,
) -> bool
    decreases records.len(),
{
    if records.len() == 0 {
        outs.len() == 0
    } else {
        &&& outs.len() == records.len()
        &&& pass_fits(
            frozen,
            pending,
            records.drop_last(),
            outs.drop_last(),
            discover,
            freeze,
            unfreeze,
            settings,
            foreground_uids,
            timestamp_ms,
        )
        &&& {
            let prev = pass_sets(
                frozen,
                pending,
                records.drop_last(),
                outs.drop_last(),
                settings,
                foreground_uids,
                timestamp_ms,
            );
            &&& record_fits(
                prev.0,
                prev.1,
                records.last(),
                outs.last(),
                discover,
                freeze,
                unfreeze,
                settings,
                foreground_uids,
                timestamp_ms,
            )
            &&& record_logged(
                prev.0,
                prev.1,
                records.last(),
                outs.last(),
                settings,
                foreground_uids,
                timestamp_ms,
            )
        }
    }
}

proof fn lemma_record_decision(
    app: ManagedApp,
    policy: FreezePolicy,
    record: ManagerAppConfigRecord,
    package_name: Seq<char>,
    pps: Seq<RuntimeProcess>,
)
    requires
        is_record_app(app, package_name, record.uid),
        is_record_policy(policy, record),
    ensures
        freeze_decision(pass_environment(pps), app, policy, pps) == freeze_decision(
            pass_environment(pps),
            record_app(package_name, record.uid),
            record_policy(record),
            pps,
        ),
{
    let a = record_app(package_name, record.uid);
    let p = record_policy(record);
    assert(is_record_app(a, package_name, record.uid));
    assert(is_record_policy(p, record));
    assert(first_fallback(p) == first_fallback(policy));
}

/// Whether the discovery callback failed with `e` for the uid.
pub open spec fn discovery_failed<D: FnMut(&str, u32) -> Result<Vec<RuntimeProcess>, DaemonError>>(
    discover: D,
    uid: u32,
    e: DaemonError,
) -> bool {
    exists|name: &str|
        name@ == uid_text(uid) && #[trigger] call_ensures(
            discover,
            (name, uid),
            Err::<Vec<RuntimeProcess>, DaemonError>(e),
        )
}

/// Whether the pass stopped with `e` on a record, given the frozen apps
/// and pending freezes before it and what the callbacks gave: the
/// discovery of the uid's processes failed; or thawing the app, which was
/// frozen and whose uid is in the foreground, failed on a process; or,
/// after the freeze calls all succeeded, the second scan of the uid
/// failed; or a signal freeze failed on a process.
pub open spec fn record_failed<
    D: FnMut(&str, u32) -> Result<Vec<RuntimeProcess>, DaemonError>,
    F: FnMut(&RuntimeProcess) -> Result<(), DaemonError>,
    U: FnMut(&RuntimeProcess) -> Result<(), DaemonError>,
>(
    frozen: Set<(Seq<char>, u32)>,
    pending: Map<(Seq<char>, u32), u128>,
    record: ManagerAppConfigRecord,
    out: PassOutcome,
    discover: D,
    freeze: F,
    unfreeze: U,
    settings: Seq<u8>,
    foreground_uids: Seq<u32>,
    timestamp_ms: u128,
    e: DaemonError,
) -> bool {
    &&& is_control_mode(record.mode)
    &&& {
        ||| discovery_failed(discover, record.uid, e)
        ||| {
            let key = outcome_key(record, out);
            let step = control_step(
                frozen,
                pending,
                key,
                record,
                settings,
                foreground_uids,
                timestamp_ms,
            );
            let pps = as_pending(out.processes@);
            &&& discovered(discover, record.uid, out.processes)
            &&& out.processes@.len() > 0
            &&& {
                ||| step == ControlStep::Foreground && frozen.contains(key) && failed_at(
                    unfreeze,
                    out.processes@,
                    e,
                )
                ||| step == ControlStep::Decide && pass_decision(record, key.0, pps)
                    == DecisionAction::Freeze && all_succeeded(freeze, pps) && discovery_failed(
                    discover,
                    record.uid,
                    e,
                )
                ||| step == ControlStep::Decide && pass_decision(record, key.0, pps)
                    == DecisionAction::Signal && failed_at(freeze, pps, e)
            }
        }
    }
}

/// Whether a pass over the records stopped with `e` on the record at `k`:
/// the records before it went as the first `k` outcomes say, and the
/// record at `k` failed as its outcome says.
pub open spec fn pass_failed<
    D: FnMut(&str, u32) -> Result<Vec<RuntimeProcess>, DaemonError>,
    F: FnMut(&RuntimeProcess) -> Result<(), DaemonError>,
    U: FnMut(&RuntimeProcess) -> Result<(), DaemonError>,
>(
    frozen: Set<(Seq<char>, u32)>,
    pending: Map<(Seq<char>, u32), u128>,
    records: Seq<ManagerAppConfigRecord>,
    outs: Seq<PassOutcome>,
    k: int,
    discover: D,
    freeze: F,
    unfreeze: U,
    settings: Seq<u8>,
    foreground_uids: Seq<u32>,
    timestamp_ms: u128,
    e: DaemonError,
) -> bool {
    &&& 0 <= k < records.len()
    &&& outs.len() == k + 1
    &&& pass_fits(
        frozen,
        pending,
        records.take(k),
        outs.take(k),
        discover,
        freeze,
        unfreeze,
        settings,
        foreground_uids,
        timestamp_ms,
    )
    &&& {
        let prev = pass_sets(
            frozen,
            pending,
            records.take(k),
            outs.take(k),
            settings,
            foreground_uids,
            timestamp_ms,
        );
        record_failed(
            prev.0,
            prev.1,
            records[k],
            outs[k],
            discover,
            freeze,
            unfreeze,
            settings,
            foreground_uids,
            timestamp_ms,
            e,
        )
    }
}

/// Whether a pass that stopped on the record at `k` left the state as the
/// records before it made it: their frozen apps, pending freezes and log,
/// except that an app in the foreground that the pass had frozen is no
/// longer frozen or pending when thawing it failed, for the pass drops its
/// key before it thaws the processes.
pub open spec fn pass_stopped(
    before: RuntimeControlState,
    after: RuntimeControlState,
    records: Seq<ManagerAppConfigRecord>,
    outs: Seq<PassOutcome>,
    k: int,
    settings: Seq<u8>,
    foreground_uids: Seq<u32>,
    timestamp_ms: u128,
) -> bool {
    let prev = pass_sets(
        before.frozen(),
        before.pending(),
        records.take(k),
        outs.take(k),
        settings,
        foreground_uids,
        timestamp_ms,
    );
    let record = records[k];
    let out = outs[k];
    let key = outcome_key(record, out);
    let thaw_failed = is_control_mode(record.mode) && out.processes@.len() > 0 && control_step(
        prev.0,
        prev.1,
        key,
        record,
        settings,
        foreground_uids,
        timestamp_ms,
    ) == ControlStep::Foreground && prev.0.contains(key);
    &&& (after.frozen(), after.pending()) == if thaw_failed {
        (prev.0.remove(key), prev.1.remove(key))
    } else {
        prev
    }
    &&& (after.log().entries(), after.next_id()) == pass_log(
        before.log().entries(),
        before.log().capacity_of(),
        before.next_id(),
        outs.take(k),
        timestamp_ms,
    )
}

/// Whether no record asks for control.
pub open spec fn no_control_records(records: Seq<ManagerAppConfigRecord>) -> bool {
    forall|i: int| 0 <= i < records.len() ==> !is_control_mode(#[trigger] records[i].mode)
}

/// Runs the control pass without freeze delays.
pub fn run_control_pass(
    state: &mut RuntimeControlState,
    app_config: &[ManagerAppConfigRecord],
    discover_processes: impl FnMut(&str, u32) -> Result<Vec<RuntimeProcess>, DaemonError>,
    freeze_process: impl FnMut(&RuntimeProcess) -> Result<(), DaemonError>,
    unfreeze_process: impl FnMut(&RuntimeProcess) -> Result<(), DaemonError>,
    foreground_uids: &[u32],
    timestamp_ms: u128,
) -> (r: Result<(), DaemonError>)
    requires
        old(state).wf(),
        timestamp_ms <= u128::MAX - 255_000,
        forall|name: &str, uid: u32| call_requires(discover_processes, (name, uid)),
        forall|p: &RuntimeProcess| call_requires(freeze_process, (p,)),
        forall|p: &RuntimeProcess| call_requires(unfreeze_process, (p,)),
    ensures
        final(state).wf(),
        frozen_only_when_allowed(
            *old(state),
            *final(state),
            app_config@,
            Seq::empty(),
            foreground_uids@,
            timestamp_ms,
        ),
        pending_only_later(*old(state), *final(state), timestamp_ms),
        thawed_only_in_foreground(*old(state), *final(state), foreground_uids@),
        r is Ok ==> exists|outs: Seq<PassOutcome>|
            {
                &&& pass_fits(
                    old(state).frozen(),
                    old(state).pending(),
                    app_config@,
                    outs,
                    discover_processes,
                    freeze_process,
                    unfreeze_process,
                    Seq::empty(),
                    foreground_uids@,
                    timestamp_ms,
                )
                &&& (final(state).frozen(), final(state).pending()) == pass_sets(
                    old(state).frozen(),
                    old(state).pending(),
                    app_config@,
                    outs,
                    Seq::empty(),
                    foreground_uids@,
                    timestamp_ms,
                )
           
                &&& (final(state).log().entries(), final(state).next_id()) == pass_log(
                    old(state).log().entries(),
                    old(state).log().capacity_of(),
                    old(state).next_id(),
                    outs,
                    timestamp_ms,
                )
            },
        final(state).log().capacity_of() == old(state).log().capacity_of(),
        r matches Err(e) ==> exists|outs: Seq<PassOutcome>, k: int|
            {
                &&& pass_failed(
                    old(state).frozen(),
                    old(state).pending(),
                    app_config@,
                    outs,
                    k,
                    discover_processes,
                    freeze_process,
                    unfreeze_process,
                    Seq::empty(),
                    foreground_uids@,
                    timestamp_ms,
                    e,
                )
                &&& pass_stopped(
                    *old(state),
                    *final(state),
                    app_config@,
                    outs,
                    k,
                    Seq::empty(),
                    foreground_uids@,
                    timestamp_ms,
                )
            },
        no_control_records(app_config@) ==> r is Ok && *final(state) == *old(state),
{
    let settings: Vec<u8> = Vec::new();
    assert(settings@ == Seq::<u8>::empty());
    run_control_pass_with_settings(
        state,
        app_config,
        settings.as_slice(),
        discover_processes,
        freeze_process,
        unfreeze_process,
        foreground_uids,
        timestamp_ms,
    )
}

/// One pass over the manager's app records. Each record in a control mode
/// whose uid has processes is handled by its step: an app in the foreground
/// has its pending freeze cleared and is thawed if the pass froze it; an
/// app already frozen is left; an app with a freeze delay waits for it;
/// otherwise the backend decides, and a freeze is applied, checked against
/// a new scan for processes that appeared meanwhile, and logged. Errors of
/// discovery, and of thawing or signalling, end the pass; a pass with no
/// record in a control mode calls nothing and changes nothing.
pub fn run_control_pass_with_settings(
    state: &mut RuntimeControlState,
    app_config: &[ManagerAppConfigRecord],
    settings: &[u8],
    discover_processes: impl FnMut(&str, u32) -> Result<Vec<RuntimeProcess>, DaemonError>,
    freeze_process: impl FnMut(&RuntimeProcess) -> Result<(), DaemonError>,
    unfreeze_process: impl FnMut(&RuntimeProcess) -> Result<(), DaemonError>,
    foreground_uids: &[u32],
    timestamp_ms: u128,
) -> (r: Result<(), DaemonError>)
    requires
        old(state).wf(),
        timestamp_ms <= u128::MAX - 255_000,
        forall|name: &str, uid: u32| call_requires(discover_processes, (name, uid)),
        forall|p: &RuntimeProcess| call_requires(freeze_process, (p,)),
        forall|p: &RuntimeProcess| call_requires(unfreeze_process, (p,)),
    ensures
        final(state).wf(),
        frozen_only_when_allowed(
            *old(state),
            *final(state),
            app_config@,
            settings@,
            foreground_uids@,
            timestamp_ms,
        ),
        pending_only_later(*old(state), *final(state), timestamp_ms),
        thawed_only_in_foreground(*old(state), *final(state), foreground_uids@),
        r is Ok ==> exists|outs: Seq<PassOutcome>|
            {
                &&& pass_fits(
                    old(state).frozen(),
                    old(state).pending(),
                    app_config@,
                    outs,
                    discover_processes,
                    freeze_process,
                    unfreeze_process,
                    settings@,
                    foreground_uids@,
                    timestamp_ms,
                )
                &&& (final(state).frozen(), final(state).pending()) == pass_sets(
                    old(state).frozen(),
                    old(state).pending(),
                    app_config@,
                    outs,
                    settings@,
                    foreground_uids@,
                    timestamp_ms,
                )
           
                &&& (final(state).log().entries(), final(state).next_id()) == pass_log(
                    old(state).log().entries(),
                    old(state).log().capacity_of(),
                    old(state).next_id(),
                    outs,
                    timestamp_ms,
                )
            },
        final(state).log().capacity_of() == old(state).log().capacity_of(),
        r matches Err(e) ==> exists|outs: Seq<PassOutcome>, k: int|
            {
                &&& pass_failed(
                    old(state).frozen(),
                    old(state).pending(),
                    app_config@,
                    outs,
                    k,
                    discover_processes,
                    freeze_process,
                    unfreeze_process,
                    settings@,
                    foreground_uids@,
                    timestamp_ms,
                    e,
                )
                &&& pass_stopped(
                    *old(state),
                    *final(state),
                    app_config@,
                    outs,
                    k,
                    settings@,
                    foreground_uids@,
                    timestamp_ms,
                )
            },
        no_control_records(app_config@) ==> r is Ok && *final(state) == *old(state),
{
    let ghost start = *state;
    let mut discover = discover_processes;
    let mut freeze = freeze_process;
    let mut unfreeze = unfreeze_process;
    let ghost mut outs: Seq<PassOutcome> = Seq::empty();
    // What the outcome of a record holds as its processes until discovery
    // gives it some: none, so that a failed discovery leaves no key.
    let no_processes: Vec<RuntimeProcess> = Vec::new();
    let mut i: usize = 0;
    while i < app_config.len()
        invariant
            i <= app_config@.len(),
            no_processes@.len() == 0,
            start == *old(state),
                discover == discover_processes,
                freeze == freeze_process,
                unfreeze == unfreeze_process,
            timestamp_ms <= u128::MAX - 255_000,
            state.wf(),
            frozen_only_when_allowed(
                start,
                *state,
                app_config@,
                settings@,
                foreground_uids@,
                timestamp_ms,
            ),
            pending_only_later(start, *state, timestamp_ms),
            thawed_only_in_foreground(start, *state, foreground_uids@),
            forall|name: &str, uid: u32| call_requires(discover_processes, (name, uid)),
            forall|p: &RuntimeProcess| call_requires(freeze_process, (p,)),
            forall|p: &RuntimeProcess| call_requires(unfreeze_process, (p,)),
            pass_fits(
                start.frozen(),
                start.pending(),
                app_config@.take(i as int),
                outs,
                discover_processes,
                freeze_process,
                unfreeze_process,
                settings@,
                foreground_uids@,
                timestamp_ms,
            ),
            (state.frozen(), state.pending()) == pass_sets(
                start.frozen(),
                start.pending(),
                app_config@.take(i as int),
                outs,
                settings@,
                foreground_uids@,
                timestamp_ms,
            ),
            outs.len() == i,
            no_control_records(app_config@.take(i as int)) ==> *state == start,
            state.log().capacity_of() == start.log().capacity_of(),
            (state.log().entries(), state.next_id()) == pass_log(
                start.log().entries(),
                start.log().capacity_of(),
                start.next_id(),
                outs,
                timestamp_ms,
            ),
        decreases app_config@.len() - i,
    {
        let record = app_config[i];
        let ghost prev_frozen = state.frozen();
        let ghost prev_pending = state.pending();
        let ghost mut out: PassOutcome = vstd::pervasive::arbitrary();
        proof {
            out = PassOutcome { processes: no_processes, logged: None, ..out };
        }
        if is_control_policy_mode(record.mode) {
            let fallback_name = uid_name(record.uid);
            let name = fallback_name.as_str();
            let found = discover(name, record.uid);
            let processes = match found {
                Ok(found) => found,
                Err(error) => {
                    assert(call_ensures(
                        discover_processes,
                        (name, record.uid),
                        Err::<Vec<RuntimeProcess>, DaemonError>(error),
                    ));
                    proof {
                        let fail_outs = outs.push(out);
                        assert(fail_outs.take(i as int) == outs);
                        assert(fail_outs[i as int] == out);
                        assert(app_config@[i as int] == record);
                        assert(pass_failed(
                            start.frozen(),
                            start.pending(),
                            app_config@,
                            fail_outs,
                            i as int,
                            discover_processes,
                            freeze_process,
                            unfreeze_process,
                            settings@,
                            foreground_uids@,
                            timestamp_ms,
                            error,
                        ));
                        assert(pass_stopped(
                            start,
                            *state,
                            app_config@,
                            fail_outs,
                            i as int,
                            settings@,
                            foreground_uids@,
                            timestamp_ms,
                        ));
                    }
                    return Err(error);
                },
            };
            proof {
                out = PassOutcome { processes: processes, freeze_failed: false, freeze_error: None, rescan: processes, logged: None };
                assert(call_ensures(
                    discover_processes,
                    (name, record.uid),
                    Ok::<Vec<RuntimeProcess>, DaemonError>(processes),
                ));
            }
            if processes.len() > 0 {
                let package_name = processes[0].package_name.clone();
                let step = state.plan_control_step(
                    &package_name,
                    &record,
                    settings,
                    foreground_uids,
                    timestamp_ms,
                );
                let ghost key = (package_name@, record.uid);
                match step {
                    ControlStep::Foreground => {
                        state.remove_pending(&package_name, record.uid);
                        if state.remove_frozen(&package_name, record.uid) {
                            let mut thaw_error: Option<DaemonError> = None;
                            let mut j: usize = 0;
                            while j < processes.len()
                                invariant_except_break
                                    j <= processes@.len(),
                                    thaw_error is None,
                                    forall|k: int| 0 <= k < j ==> call_ensures(
                                        unfreeze_process,
                                        (&processes@[k],),
                                        Ok::<(), DaemonError>(()),
                                    ),
                                invariant
                                    forall|p: &RuntimeProcess| call_requires(unfreeze_process, (p,)),
                                    start == *old(state),
                                    discover == discover_processes,
                                    freeze == freeze_process,
                                    unfreeze == unfreeze_process,
                                    pass_invariant(start, *state, app_config@, settings@, foreground_uids@, timestamp_ms),
                                ensures
                                    thaw_error is None ==> all_succeeded(unfreeze_process, processes@),
                                    thaw_error matches Some(e) ==> failed_at(
                                        unfreeze_process,
                                        processes@,
                                        e,
                                    ),
                                decreases processes@.len() - j,
                            {
                                let target = &processes[j];
                                assert(*target == processes@[j as int]);
                                let res = unfreeze(target);
                                match res {
                                    Ok(unit) => {
                                        assert(unit == ());
                                        assert(res == Ok::<(), DaemonError>(()));
                                        j = j + 1;
                                    },
                                    Err(error) => {
                                        assert(call_ensures(
                                            unfreeze_process,
                                            (&processes@[j as int],),
                                            Err::<(), DaemonError>(error),
                                        ));
                                        assert(failed_at(unfreeze_process, processes@, error));
                                        thaw_error = Some(error);
                                        break;
                                    },
                                }
                            }
                            match thaw_error {
                                Some(error) => {
                                    proof {
                                        let fail_outs = outs.push(out);
                                        assert(fail_outs.take(i as int) == outs);
                                        assert(fail_outs[i as int] == out);
                                        assert(app_config@[i as int] == record);
                                        assert(pass_failed(
                                            start.frozen(),
                                            start.pending(),
                                            app_config@,
                                            fail_outs,
                                            i as int,
                                            discover_processes,
                                            freeze_process,
                                            unfreeze_process,
                                            settings@,
                                            foreground_uids@,
                                            timestamp_ms,
                                            error,
                                        ));
                                        assert(pass_stopped(
                                            start,
                                            *state,
                                            app_config@,
                                            fail_outs,
                                            i as int,
                                            settings@,
                                            foreground_uids@,
                                            timestamp_ms,
                                        ));
                                    }
                                    return Err(error);
                                },
                                None => {},
                            }
                            let app = managed_app_from_record(&package_name, record.uid);
                            let mut operation = SystemAwareCgroupBinderBackend::new(
                                backend_environment(processes.as_slice()),
                            ).unfreeze_operation(&app, processes.as_slice(), "foreground uid active");
                            operation.backend = backend_name(processes.as_slice()).to_owned();
                            proof {
                                out = PassOutcome { logged: Some(operation), ..out };
                            }
                            state.log_operation(operation, timestamp_ms);
                        }
                    },
                    ControlStep::StayFrozen | ControlStep::Wait => {},
                    ControlStep::StartDelay => {
                        let delay_ms = manager_policy_delay_ms(&record, settings);
                        let due_at_ms = timestamp_ms + delay_ms as u128;
                        state.insert_pending(package_name.clone(), record.uid, due_at_ms);
                        let mut reason = "pending freeze delay ".to_owned();
                        push_decimal(&mut reason, delay_ms as u128);
                        reason.append("ms");
                        let operation = pass_operation(
                            &package_name,
                            record.uid,
                            processes.as_slice(),
                            ControlAction::Postpone,
                            OperationResult::Postponed,
                            reason,
                        );
                        proof {
                            out = PassOutcome { logged: Some(operation), ..out };
                        }
                        state.log_operation(operation, timestamp_ms);
                    },
                    ControlStep::Decide => {
                        let pending_processes = mark_pending(&processes);
                        let app = managed_app_from_record(&package_name, record.uid);
                        let policy = policy_from_record(&record);
                        let backend = SystemAwareCgroupBinderBackend::new(
                            backend_environment(pending_processes.as_slice()),
                        );
                        let decision = backend.can_freeze(&app, &policy, pending_processes.as_slice());
                        proof {
                            lemma_record_decision(app, policy, record, package_name@, pending_processes@);
                        }
                        let mut logged: Option<(ControlAction, OperationResult)> = None;
                        match decision.action {
                            DecisionAction::Freeze => {
                                let mut freeze_error: Option<DaemonError> = None;
                                let mut j: usize = 0;
                                while j < pending_processes.len()
                                    invariant_except_break
                                        j <= pending_processes@.len(),
                                        freeze_error is None,
                                        forall|k: int| 0 <= k < j ==> call_ensures(
                                            freeze_process,
                                            (&pending_processes@[k],),
                                            Ok::<(), DaemonError>(()),
                                        ),
                                    invariant
                                        forall|p: &RuntimeProcess| call_requires(freeze_process, (p,)),
                                        start == *old(state),
                discover == discover_processes,
                freeze == freeze_process,
                unfreeze == unfreeze_process,
                                        pass_invariant(start, *state, app_config@, settings@, foreground_uids@, timestamp_ms),
                                    ensures
                                        freeze_error is None ==> forall|k: int|
                                            0 <= k < pending_processes@.len() ==> call_ensures(
                                                freeze_process,
                                                (&pending_processes@[k],),
                                                Ok::<(), DaemonError>(()),
                                            ),
                                        freeze_error matches Some(e) ==> failed_at(
                                            freeze_process,
                                            pending_processes@,
                                            e,
                                        ),
                                    decreases pending_processes@.len() - j,
                                {
                                    let target = &pending_processes[j];
                                    assert(*target == pending_processes@[j as int]);
                                    let res = freeze(target);
                                    assert(call_ensures(freeze_process, (target,), res));
                                    match res {
                                        Ok(unit) => {
                                            assert(unit == ());
                                            assert(res == Ok::<(), DaemonError>(()));
                                            assert(call_ensures(
                                                freeze_process,
                                                (&pending_processes@[j as int],),
                                                Ok::<(), DaemonError>(()),
                                            ));
                                            j = j + 1;
                                        },
                                        Err(error) => {
                                            assert(call_ensures(
                                                freeze_process,
                                                (&pending_processes@[j as int],),
                                                Err::<(), DaemonError>(error),
                                            ));
                                            assert(failed_at(freeze_process, pending_processes@, error));
                                            freeze_error = Some(error);
                                            break;
                                        },
                                    }
                                }
                                match freeze_error {
                                    Some(error) => {
                                        proof {
                                            out = PassOutcome { processes: processes, freeze_failed: true, freeze_error: Some(error), rescan: processes, logged: None };
                                        }
                                        let fallback = backend.fallback_after_freeze_apply_error(
                                            &policy,
                                            &error,
                                        );
                                        let (action, result) = operation_from_fallback(fallback.action);
                                        let operation = pass_operation(
                                            &package_name,
                                            record.uid,
                                            pending_processes.as_slice(),
                                            action,
                                            result,
                                            fallback.reason,
                                        );
                                        proof {
                                            out = PassOutcome { logged: Some(operation), ..out };
                                        }
                                        state.log_operation(operation, timestamp_ms);
                                    },
                                    None => {
                                        let rescanned = discover(name, record.uid);
                                        let post_freeze_processes = match rescanned {
                                            Ok(found) => found,
                                            Err(error) => {
                                                assert(call_ensures(
                                                    discover_processes,
                                                    (name, record.uid),
                                                    Err::<Vec<RuntimeProcess>, DaemonError>(error),
                                                ));
                                                proof {
                                                    let fail_outs = outs.push(out);
                                                    assert(fail_outs.take(i as int) == outs);
                                                    assert(fail_outs[i as int] == out);
                                                    assert(app_config@[i as int] == record);
                                                    assert(pass_failed(
                                                        start.frozen(),
                                                        start.pending(),
                                                        app_config@,
                                                        fail_outs,
                                                        i as int,
                                                        discover_processes,
                                                        freeze_process,
                                                        unfreeze_process,
                                                        settings@,
                                                        foreground_uids@,
                                                        timestamp_ms,
                                                        error,
                                                    ));
                                                    assert(pass_stopped(
                                                        start,
                                                        *state,
                                                        app_config@,
                                                        fail_outs,
                                                        i as int,
                                                        settings@,
                                                        foreground_uids@,
                                                        timestamp_ms,
                                                    ));
                                                }
                                                return Err(error);
                                            },
                                        };
                                        proof {
                                            out = PassOutcome {
                                                processes: processes,
                                                freeze_failed: false,
                                                freeze_error: None,
                                                rescan: post_freeze_processes,
                                                logged: None,
                                            };
                                            assert(call_ensures(
                                                discover_processes,
                                                (name, record.uid),
                                                Ok::<Vec<RuntimeProcess>, DaemonError>(post_freeze_processes),
                                            ));
                                        }
                                        let added = new_pids(
                                            pending_processes.as_slice(),
                                            post_freeze_processes.as_slice(),
                                            record.uid,
                                        );
                                        if added.len() > 0 {
                                            let ghost mut thaws: Seq<Result<(), DaemonError>> = Seq::empty();
                                            let mut j: usize = 0;
                                            while j < post_freeze_processes.len()
                                                invariant
                                                    j <= post_freeze_processes@.len(),
                                                    thaws.len() == j,
                                                    forall|k: int| 0 <= k < j ==> call_ensures(
                                                        unfreeze_process,
                                                        (&post_freeze_processes@[k],),
                                                        #[trigger] thaws[k],
                                                    ),
                                                    forall|p: &RuntimeProcess| call_requires(unfreeze_process, (p,)),
                                                    start == *old(state),
                discover == discover_processes,
                freeze == freeze_process,
                unfreeze == unfreeze_process,
                                                    pass_invariant(start, *state, app_config@, settings@, foreground_uids@, timestamp_ms),
                                                decreases post_freeze_processes@.len() - j,
                                            {
                                                let target = &post_freeze_processes[j];
                                                assert(*target == post_freeze_processes@[j as int]);
                                                let thawed = unfreeze(target);
                                                proof {
                                                    let before = thaws;
                                                    thaws = thaws.push(thawed);
                                                    assert forall|k: int| 0 <= k < j + 1 implies call_ensures(
                                                        unfreeze_process,
                                                        (&post_freeze_processes@[k],),
                                                        #[trigger] thaws[k],
                                                    ) by {
                                                        if k < j {
                                                            assert(thaws[k] == before[k]);
                                                        }
                                                    }
                                                }
                                                j = j + 1;
                                            }
                                            assert(all_called(unfreeze_process, post_freeze_processes@));
                                            state.remove_pending(&package_name, record.uid);
                                            let mut reason = String::new();
                                            let cs = chars_of(decision.reason.as_str());
                                            push_chars(&mut reason, cs.as_slice());
                                            reason.append("; new same-uid process appeared after freeze");
                                            let mut operation = pass_operation(
                                                &package_name,
                                                record.uid,
                                                post_freeze_processes.as_slice(),
                                                ControlAction::Freeze,
                                                OperationResult::Partial,
                                                reason,
                                            );
                                            operation.details.append(" new_pids=");
                                            push_debug_pids(&mut operation.details, added.as_slice());
                                            proof {
                                                out = PassOutcome { logged: Some(operation), ..out };
                                            }
                                            state.log_operation(operation, timestamp_ms);
                                        } else {
                                            state.insert_frozen(package_name.clone(), record.uid);
                                            state.remove_pending(&package_name, record.uid);
                                            logged = Some((ControlAction::Freeze, OperationResult::Success));
                                        }
                                    },
                                }
                            },
                            DecisionAction::Postpone => {
                                logged = Some((ControlAction::Postpone, OperationResult::Postponed));
                            },
                            DecisionAction::AlternateFreezer => {
                                logged = Some((ControlAction::Fallback, OperationResult::Skipped));
                            },
                            DecisionAction::Signal => {
                                let mut signal_error: Option<DaemonError> = None;
                                let mut j: usize = 0;
                                while j < pending_processes.len()
                                    invariant_except_break
                                        j <= pending_processes@.len(),
                                        signal_error is None,
                                        forall|k: int| 0 <= k < j ==> call_ensures(
                                            freeze_process,
                                            (&pending_processes@[k],),
                                            Ok::<(), DaemonError>(()),
                                        ),
                                    invariant
                                        forall|p: &RuntimeProcess| call_requires(freeze_process, (p,)),
                                        start == *old(state),
                                        discover == discover_processes,
                                        freeze == freeze_process,
                                        unfreeze == unfreeze_process,
                                        pass_invariant(start, *state, app_config@, settings@, foreground_uids@, timestamp_ms),
                                    ensures
                                        signal_error is None ==> all_succeeded(freeze_process, pending_processes@),
                                        signal_error matches Some(e) ==> failed_at(
                                            freeze_process,
                                            pending_processes@,
                                            e,
                                        ),
                                    decreases pending_processes@.len() - j,
                                {
                                    let target = &pending_processes[j];
                                    assert(*target == pending_processes@[j as int]);
                                    let res = freeze(target);
                                    match res {
                                        Ok(unit) => {
                                            assert(unit == ());
                                            assert(res == Ok::<(), DaemonError>(()));
                                            j = j + 1;
                                        },
                                        Err(error) => {
                                            assert(call_ensures(
                                                freeze_process,
                                                (&pending_processes@[j as int],),
                                                Err::<(), DaemonError>(error),
                                            ));
                                            assert(failed_at(freeze_process, pending_processes@, error));
                                            signal_error = Some(error);
                                            break;
                                        },
                                    }
                                }
                                match signal_error {
                                    Some(error) => {
                                        proof {
                                            let fail_outs = outs.push(out);
                                            assert(fail_outs.take(i as int) == outs);
                                            assert(fail_outs[i as int] == out);
                                            assert(app_config@[i as int] == record);
                                            assert(pass_failed(
                                                start.frozen(),
                                                start.pending(),
                                                app_config@,
                                                fail_outs,
                                                i as int,
                                                discover_processes,
                                                freeze_process,
                                                unfreeze_process,
                                                settings@,
                                                foreground_uids@,
                                                timestamp_ms,
                                                error,
                                            ));
                                            assert(pass_stopped(
                                                start,
                                                *state,
                                                app_config@,
                                                fail_outs,
                                                i as int,
                                                settings@,
                                                foreground_uids@,
                                                timestamp_ms,
                                            ));
                                        }
                                        return Err(error);
                                    },
                                    None => {},
                                }
                                state.insert_frozen(package_name.clone(), record.uid);
                                state.remove_pending(&package_name, record.uid);
                                logged = Some((ControlAction::Freeze, OperationResult::Success));
                            },
                            DecisionAction::Terminate => {
                                logged = Some((ControlAction::Terminate, OperationResult::Skipped));
                            },
                            DecisionAction::Skip => {
                                logged = Some((ControlAction::Skip, OperationResult::Skipped));
                            },
                        }
                        match logged {
                            Some((action, result)) => {
                                let operation = pass_operation(
                                    &package_name,
                                    record.uid,
                                    pending_processes.as_slice(),
                                    action,
                                    result,
                                    decision.reason,
                                );
                                proof {
                                    out = PassOutcome { logged: Some(operation), ..out };
                                }
                                state.log_operation(operation, timestamp_ms);
                            },
                            None => {},
                        }
                    },
                }
            }
        }
        proof {
            assert(record_fits(
                prev_frozen,
                prev_pending,
                record,
                out,
                discover_processes,
                freeze_process,
                unfreeze_process,
                settings@,
                foreground_uids@,
                timestamp_ms,
            ));
            assert(record_logged(
                prev_frozen,
                prev_pending,
                record,
                out,
                settings@,
                foreground_uids@,
                timestamp_ms,
            ));
            let taken = app_config@.take(i + 1);
            assert(taken[i as int] == record);
            assert forall|m: int| 0 <= m < i implies taken[m] == app_config@.take(i as int)[m] by {}

            assert(taken.drop_last() == app_config@.take(i as int));
            assert(taken.last() == record);
            let new_outs = outs.push(out);
            assert(new_outs.drop_last() == outs);
            assert(new_outs.last() == out);
            assert(pass_sets(
                start.frozen(),
                start.pending(),
                taken.drop_last(),
                new_outs.drop_last(),
                settings@,
                foreground_uids@,
                timestamp_ms,
            ) == (prev_frozen, prev_pending));
            assert(pass_fits(
                start.frozen(),
                start.pending(),
                taken,
                new_outs,
                discover_processes,
                freeze_process,
                unfreeze_process,
                settings@,
                foreground_uids@,
                timestamp_ms,
            ));
            outs = new_outs;
        }
        i = i + 1;
    }
    proof {
        assert(app_config@.take(app_config@.len() as int) == app_config@);
    }
    Ok(())
}

} // verus!

verus! {

/// What the default backend, with every primitive available, decides for
/// an app under a policy.
pub fn decide_freeze(app: &ManagedApp, policy: &FreezePolicy, processes: &[RuntimeProcess]) -> (d:
    FreezeDecision)
    ensures
        (d.action, d.reason@) == freeze_decision(full_environment(), *app, *policy, processes@),
{
    SystemAwareCgroupBinderBackend::new(BackendEnvironment::default()).can_freeze(
        app,
        policy,
        processes,
    )
}

/// Checks the app against the current package record first: a mismatch is
/// a system error with the reconciliation message, and no decision is made.
pub fn decide_freeze_after_reconciliation(
    app: &ManagedApp,
    current_package: &PackageRecord,
    policy: &FreezePolicy,
    processes: &[RuntimeProcess],
) -> (r: Result<FreezeDecision, DaemonError>)
    ensures
        r is Ok <==> reconcile_result(*app, *current_package) is Ok,
        r matches Ok(d) ==> (d.action, d.reason@) == freeze_decision(
            full_environment(),
            *app,
            *policy,
            processes@,
        ),
        r matches Err(e) ==> (e matches DaemonError::System(m) && reconcile_result(
            *app,
            *current_package,
        ) == Err::<(), Seq<char>>(m@)),
{
    match reconcile_uid(app, current_package) {
        Err(message) => Err(DaemonError::System(message)),
        Ok(()) => Ok(decide_freeze(app, policy, processes)),
    }
}

/// Marks every process frozen, leaving the rest of each record unchanged.
pub fn mark_frozen(processes: &mut [RuntimeProcess])
    ensures
        final(processes)@.len() == old(processes)@.len(),
        forall|i: int|
            0 <= i < old(processes)@.len() ==> #[trigger] final(processes)@[i] == (RuntimeProcess {
                control_state: ControlState::Frozen,
                ..old(processes)@[i]
            }),
{
    mark_processes_frozen(processes);
}

/// Marks every process running, leaving the rest of each record unchanged.
pub fn mark_running(processes: &mut [RuntimeProcess])
    ensures
        final(processes)@.len() == old(processes)@.len(),
        forall|i: int|
            0 <= i < old(processes)@.len() ==> #[trigger] final(processes)@[i] == (RuntimeProcess {
                control_state: ControlState::Running,
                ..old(processes)@[i]
            }),
{
    mark_processes_running(processes);
}

/// The operation that records, after a restart, which processes of an app
/// were seen before any new control.
pub fn recover_after_restart(
    operation_id: u64,
    timestamp_ms: u128,
    package_name: &str,
    uid: u32,
    processes: &[RuntimeProcess],
) -> (op: ControlOperation)
    ensures
        op.operation_id == operation_id,
        op.timestamp_ms == timestamp_ms,
        op.package_name@ == package_name@,
        op.uid == uid,
        op.pid_list@ == pids_of(processes@),
        op.action == ControlAction::Recover,
        op.backend@ == "restart-reconciliation"@,
        op.reason@ == "daemon restart reconciliation"@,
        op.result == OperationResult::Success,
        op.details@ == "observed "@ + decimal(processes@.len()) + " process(es) before new control"@,
{
    let mut details = "observed ".to_owned();
    push_decimal(&mut details, processes.len() as u128);
    details.append(" process(es) before new control");
    ControlOperation {
        operation_id,
        timestamp_ms,
        package_name: package_name.to_owned(),
        uid,
        pid_list: pid_list(processes),
        action: ControlAction::Recover,
        backend: "restart-reconciliation".to_owned(),
        reason: "daemon restart reconciliation".to_owned(),
        result: OperationResult::Success,
        details,
    }
}

} // verus!

verus! {

/// Whether a line continues a ROM fingerprint warning: it starts with white
/// space, or with `baseline=` or `device=`.
pub open spec fn continues_rom_warning(line: Seq<char>) -> bool {
    (line.len() > 0 && is_space(line[0])) || starts_with(line, "baseline="@) || starts_with(
        line,
        "device="@,
    )
}

/// The lines `ls` with every ROM fingerprint warning and the lines that
/// continue it removed, each kept line ended by a newline; `skipping` says
/// whether a warning is open before the first line.
pub open spec fn sanitized_lines(ls: Seq<Seq<char>>, skipping: bool) -> Seq<char>
    decreases ls.len(),
{
    if ls.len() == 0 {
        Seq::empty()
    } else if contains(ls[0], "WARNING ROM fingerprint mismatch"@) {
        sanitized_lines(ls.drop_first(), true)
    } else if skipping && continues_rom_warning(ls[0]) {
        sanitized_lines(ls.drop_first(), true)
    } else {
        ls[0] + seq!['\n'] + sanitized_lines(ls.drop_first(), false)
    }
}

/// The startup log without ROM fingerprint warnings, one line per newline.
pub fn sanitize_startup_log(log: &str) -> (s: String)
    ensures
        s@ == sanitized_lines(lines(log@), false),
{
    let cs = chars_of(log);
    let ls = split_lines(cs.as_slice());
    let ghost lv = views(ls@);
    let warning = chars_of("WARNING ROM fingerprint mismatch");
    let baseline = chars_of("baseline=");
    let device = chars_of("device=");
    let mut out = String::new();
    let mut skipping = false;
    let mut i: usize = 0;
    assert(lv.skip(0) == lv);
    assert(out@ + sanitized_lines(lv, false) == sanitized_lines(lv, false));
    while i < ls.len()
        invariant
            i <= ls@.len(),
            lv == views(ls@),
            lv == lines(log@),
            warning@ == "WARNING ROM fingerprint mismatch"@,
            baseline@ == "baseline="@,
            device@ == "device="@,
            out@ + sanitized_lines(lv.skip(i as int), skipping) == sanitized_lines(lv, false),
        decreases ls@.len() - i,
    {
        let line = ls[i].as_slice();
        proof {
            assert(lv.skip(i as int).drop_first() == lv.skip(i + 1));
            assert(lv.skip(i as int)[0] == line@);
        }
        if contains_chars(line, warning.as_slice()) {
            skipping = true;
        } else if skipping && ((line.len() > 0 && is_space_char(line[0])) || starts_with_chars(
            line,
            baseline.as_slice(),
        ) || starts_with_chars(line, device.as_slice())) {
        } else {
            let ghost before = out@;
            let ghost rest = sanitized_lines(lv.skip(i + 1), false);
            push_chars(&mut out, line);
            out.push('\n');
            skipping = false;
            assert(before + (line@ + seq!['\n'] + rest) == out@ + rest);
        }
        i = i + 1;
    }
    assert(lv.skip(i as int) == Seq::<Seq<char>>::empty());
    assert(out@ + Seq::<char>::empty() == out@);
    out
}

/// The log with `line` added, unless the log already has a line equal to
/// `line` without its trailing white space; a newline is added after a
/// line that has none.
pub open spec fn with_line_once(log: Seq<char>, line: Seq<char>) -> Seq<char> {
    if lines(log).contains(trim_end(line)) {
        log
    } else if line.len() > 0 && line.last() == '\n' {
        log + line
    } else {
        log + line + seq!['\n']
    }
}

/// The length of `cs` without its trailing white space.
fn trim_end_len(cs: &[char]) -> (n: usize)
    ensures
        n <= cs@.len(),
        cs@.take(n as int) == trim_end(cs@),
{
    let mut n = cs.len();
    assert(cs@.take(n as int) == cs@);
    while n > 0 && is_space_char(cs[n - 1])
        invariant
            n <= cs@.len(),
            trim_end(cs@.take(n as int)) == trim_end(cs@),
        decreases n,
    {
        assert(cs@.take(n as int).drop_last() == cs@.take(n - 1));
        n = n - 1;
    }
    n
}

/// Appends `line` to the log unless the log already holds it.
pub fn append_log_once(log: &mut String, line: &str)
    ensures
        final(log)@ == with_line_once(old(log)@, line@),
{
    let cs = chars_of(line);
    let n = trim_end_len(cs.as_slice());
    let trimmed = string_of(copy_range(cs.as_slice(), 0, n).as_slice());
    let existing_chars = chars_of(log.as_str());
    let existing = split_lines(existing_chars.as_slice());
    let ghost lv = views(existing@);
    let mut i: usize = 0;
    while i < existing.len()
        invariant
            i <= existing@.len(),
            lv == views(existing@),
            lv == lines(log@),
            trimmed@ == trim_end(line@),
            forall|j: int| 0 <= j < i ==> lv[j] != trim_end(line@),
        decreases existing@.len() - i,
    {
        let candidate = string_of(existing[i].as_slice());
        if candidate == trimmed {
            assert(lv[i as int] == trim_end(line@));
            return;
        }
        i = i + 1;
    }
    assert(!lv.contains(trim_end(line@)));
    push_chars(log, cs.as_slice());
    if !(cs.len() > 0 && cs[cs.len() - 1] == '\n') {
        log.push('\n');
    }
}

} // verus!

verus! {

/// The uid of the last package record named `name`, if any.
pub open spec fn package_uid(records: Seq<PackageRecord>, name: Seq<char>) -> Option<u32>
    decreases records.len(),
{
    if records.len() == 0 {
        None
    } else if records.last().package_name@ == name {
        Some(records.last().uid)
    } else {
        package_uid(records.drop_last(), name)
    }
}

/// The uid a legacy policy token names: the token itself as a number, or
/// the number after its first `uid`.
pub open spec fn uid_token(token: Seq<char>) -> Option<u32> {
    match parse_u32(token) {
        Some(uid) => Some(uid),
        None => match find(token, "uid"@) {
            Some(k) => parse_u32(token.skip(k + 3)),
            None => None,
        },
    }
}

/// The uid of a policy line's package token: the token's own uid, else
/// the uid of the package of that name.
pub open spec fn record_uid(token: Seq<char>, records: Seq<PackageRecord>) -> Option<u32> {
    match uid_token(token) {
        Some(uid) => Some(uid),
        None => package_uid(records, token),
    }
}

/// The manager records of the policy lines whose uid is known, in order.
pub open spec fn app_config_records(
    fields: Seq<(Seq<char>, i32, bool)>,
    records: Seq<PackageRecord>,
) -> Seq<ManagerAppConfigRecord>
    decreases fields.len(),
{
    if fields.len() == 0 {
        Seq::empty()
    } else {
        let rest = app_config_records(fields.drop_last(), records);
        let f = fields.last();
        match record_uid(f.0, records) {
            Some(uid) => rest.push(ManagerAppConfigRecord { uid, mode: f.1, permissive: f.2 }),
            None => rest,
        }
    }
}

/// Reads a legacy uid token: a plain number, or `uid` followed by one.
pub fn parse_legacy_uid_token(token: &str) -> (r: Option<u32>)
    ensures
        r == uid_token(token@),
{
    let cs = chars_of(token);
    match parse_u32_chars(cs.as_slice()) {
        Some(uid) => {
            return Some(uid);
        },
        None => {},
    }
    let key = chars_of("uid");
    proof {
        reveal_strlit("uid");
        lemma_find(cs@, key@);
    }
    match find_chars(cs.as_slice(), key.as_slice()) {
        Some(k) => {
            assert(key@.len() == 3);
            assert(matches_at(cs@, key@, k as int));
            assert(k + 3 <= cs.len());
            let rest = copy_range(cs.as_slice(), k + 3, cs.len());
            assert(rest@ == token@.skip(k + 3));
            parse_u32_chars(rest.as_slice())
        },
        None => None,
    }
}

/// The uid of the last package record named `name`.
fn find_package_uid(records: &[PackageRecord], name: &String) -> (r: Option<u32>)
    ensures
        r == package_uid(records@, name@),
{
    let mut i = records.len();
    assert(records@.take(i as int) == records@);
    while i > 0
        invariant
            i <= records@.len(),
            package_uid(records@.take(i as int), name@) == package_uid(records@, name@),
        decreases i,
    {
        assert(records@.take(i as int).drop_last() == records@.take(i - 1));
        assert(records@.take(i as int).last() == records@[i - 1]);
        if records[i - 1].package_name == *name {
            return Some(records[i - 1].uid);
        }
        i = i - 1;
    }
    None
}

/// The manager records of the legacy app configuration: each policy line
/// whose package token names a uid, directly or through the package list.
pub fn load_manager_app_config_records(
    app_config: Option<&str>,
    package_records: &[PackageRecord],
) -> (v: Vec<ManagerAppConfigRecord>)
    ensures
        v@ == match app_config {
            None => Seq::empty(),
            Some(text) => app_config_records(policy_lines(lines(text@)), package_records@),
        },
{
    let mut out: Vec<ManagerAppConfigRecord> = Vec::new();
    let text = match app_config {
        None => {
            return out;
        },
        Some(text) => text,
    };
    let cs = chars_of(text);
    let ls = split_lines(cs.as_slice());
    let ghost lv = views(ls@);
    let mut i: usize = 0;
    while i < ls.len()
        invariant
            i <= ls@.len(),
            lv == views(ls@),
            lv == lines(text@),
            out@ == app_config_records(policy_lines(lv.take(i as int)), package_records@),
        decreases ls@.len() - i,
    {
        proof {
            assert(lv.take(i + 1).drop_last() == lv.take(i as int));
            assert(lv.take(i + 1).last() == ls@[i as int]@);
        }
        match parse_policy_chars(ls[i].as_slice()) {
            Some(record) => {
                let ghost before = policy_lines(lv.take(i as int));
                let ghost f = policy_lines(lv.take(i + 1)).last();
                assert(policy_lines(lv.take(i + 1)) == before.push(f));
                assert(before.push(f).drop_last() == before);
                let uid = match parse_legacy_uid_token(record.package_or_uid.as_str()) {
                    Some(uid) => Some(uid),
                    None => find_package_uid(package_records, &record.package_or_uid),
                };
                match uid {
                    Some(uid) => {
                        out.push(
                            ManagerAppConfigRecord {
                                uid,
                                mode: record.mode,
                                permissive: record.permissive,
                            },
                        );
                    },
                    None => {},
                }
            },
            None => {},
        }
        i = i + 1;
    }
    assert(lv.take(ls@.len() as int) == lv);
    out
}

} // verus!

verus! {

/// The number of loads the retry loop makes at most: `attempts`, and at
/// least one.
pub open spec fn attempt_count(attempts: usize) -> nat {
    if attempts >= 1 {
        attempts as nat
    } else {
        1
    }
}

/// Whether any policy file was found.
pub open spec fn files_available(files: LoadedPolicyFiles) -> bool {
    files.app_config is Some || files.app_label is Some || files.settings is Some
}

/// Whether the `tries`-th load ends the retries: it failed, it found a
/// policy file, or it was the last attempt.
pub open spec fn stops_retrying(
    loaded: Result<LoadedPolicyFiles, DaemonError>,
    tries: nat,
    attempts: usize,
) -> bool {
    match loaded {
        Err(_) => true,
        Ok(files) => files_available(files) || tries >= attempt_count(attempts),
    }
}

/// The retry decision after the `tries`-th load.
pub fn retry_outcome(
    loaded: &Result<LoadedPolicyFiles, DaemonError>,
    tries: usize,
    attempts: usize,
) -> (stop: bool)
    ensures
        stop == stops_retrying(*loaded, tries as nat, attempts),
{
    match loaded {
        Err(_) => true,
        Ok(files) => files.is_available() || (tries >= attempts && tries >= 1),
    }
}

/// Whether `r` is what the retry loop returns after the loads in
/// `earlier`, each handed its attempt number and each finding no file, and
/// one more load, handed the next number, that ended the retries with `r`.
pub open spec fn retried_to<L: Fn(&DaemonPaths, usize) -> Result<LoadedPolicyFiles, DaemonError>>(
    load: L,
    paths: &DaemonPaths,
    attempts: usize,
    earlier: Seq<LoadedPolicyFiles>,
    r: Result<LoadedPolicyFiles, DaemonError>,
) -> bool {
    &&& earlier.len() < attempt_count(attempts)
    &&& forall|i: int|
        0 <= i < earlier.len() ==> call_ensures(
            load,
            (paths, i as usize),
            Ok::<LoadedPolicyFiles, DaemonError>(#[trigger] earlier[i]),
        ) && !files_available(earlier[i])
    &&& call_ensures(load, (paths, earlier.len() as usize), r)
    &&& stops_retrying(r, earlier.len() + 1, attempts)
}

/// Loads the policy files with `load` up to `attempts` times, and at least
/// once, handing each load its attempt number from 0, until a load fails
/// or finds one of the files. A failed load ends the retries with its
/// error; when no load finds a file, the last, empty, result is returned.
pub fn load_policy_with_retries(
    paths: &DaemonPaths,
    attempts: usize,
    load: impl Fn(&DaemonPaths, usize) -> Result<LoadedPolicyFiles, DaemonError>,
) -> (r: Result<LoadedPolicyFiles, DaemonError>)
    requires
        forall|attempt: usize| call_requires(load, (paths, attempt)),
    ensures
        exists|earlier: Seq<LoadedPolicyFiles>| retried_to(load, paths, attempts, earlier, r),
{
    let count = if attempts >= 1 {
        attempts
    } else {
        1
    };
    let ghost mut earlier: Seq<LoadedPolicyFiles> = Seq::empty();
    let mut tries: usize = 0;
    loop
        invariant
            tries == earlier.len(),
            tries < count,
            count == attempt_count(attempts),
            forall|attempt: usize| call_requires(load, (paths, attempt)),
            forall|i: int|
                0 <= i < earlier.len() ==> call_ensures(
                    load,
                    (paths, i as usize),
                    Ok::<LoadedPolicyFiles, DaemonError>(#[trigger] earlier[i]),
                ) && !files_available(earlier[i]),
        decreases count - tries,
    {
        let loaded = load(paths, tries);
        let stop = retry_outcome(&loaded, tries + 1, attempts);
        if stop {
            assert(retried_to(load, paths, attempts, earlier, loaded));
            return loaded;
        }
        match loaded {
            Ok(files) => {
                proof {
                    let before = earlier;
                    earlier = earlier.push(files);
                    assert forall|i: int| 0 <= i < earlier.len() implies call_ensures(
                        load,
                        (paths, i as usize),
                        Ok::<LoadedPolicyFiles, DaemonError>(#[trigger] earlier[i]),
                    ) && !files_available(earlier[i]) by {
                        if i < before.len() {
                            assert(earlier[i] == before[i]);
                        }
                    }
                }
            },
            Err(error) => {
                return Err(error);
            },
        }
        tries = tries + 1;
    }
}

} // verus!

verus! {

/// Logging the same single line twice logs it once: on a log that is empty
/// or ends with a newline, a second `append_log_once` of a line (with or
/// without its final newline, and no trailing white space before it)
/// leaves the log as the first left it.
pub proof fn lemma_append_log_once_idempotent(log: Seq<char>, body: Seq<char>, line: Seq<char>)
    requires
        log.len() == 0 || log.last() == '\n',
        line == body || line == body.push('\n'),
        forall|i: int| 0 <= i < body.len() ==> body[i] != '\n',
        body.len() == 0 || !is_space(body.last()),
    ensures
        with_line_once(with_line_once(log, line), line) == with_line_once(log, line),
{
    assert(trim_end(body) == body);
    if line != body {
        assert(line.drop_last() == body);
        assert(trim_end(line) == trim_end(body));
    }
    if !lines(log).contains(trim_end(line)) {
        let once = with_line_once(log, line);
        assert(once == log + body.push('\n')) by {
            if line == body {
                assert(log + line + seq!['\n'] =~= log + body.push('\n'));
            }
        }
        lemma_lines_push_line(log, body);
        assert(lines(once).last() == body);
        assert(lines(once).contains(trim_end(line)));
    }
}

} // verus!

verus! {

/// The module facts of a state: id, name, version, version code and author.
pub open spec fn module_facts(s: ReadOnlyState) -> (Seq<char>, Seq<char>, Seq<char>, u32, Seq<char>) {
    (s.module_id@, s.module_name@, s.version@, s.version_code, s.author@)
}

/// The trimmed key and value of a `key=value` line, split at its first `=`.
pub open spec fn prop_entry(line: Seq<char>) -> Option<(Seq<char>, Seq<char>)> {
    match find(line, "="@) {
        Some(k) => Some((trim(line.take(k)), trim(line.skip(k + 1)))),
        None => None,
    }
}

/// The module facts after one `module.prop` line: `id`, `name`, `version`
/// and `author` set their fact, `versionCode` sets the version code when its
/// value is a number, anything else changes nothing.
pub open spec fn apply_prop_line(
    f: (Seq<char>, Seq<char>, Seq<char>, u32, Seq<char>),
    line: Seq<char>,
) -> (Seq<char>, Seq<char>, Seq<char>, u32, Seq<char>) {
    match prop_entry(line) {
        None => f,
        Some((key, value)) => if key == "id"@ {
            (value, f.1, f.2, f.3, f.4)
        } else if key == "name"@ {
            (f.0, value, f.2, f.3, f.4)
        } else if key == "version"@ {
            (f.0, f.1, value, f.3, f.4)
        } else if key == "versionCode"@ {
            match parse_u32(value) {
                Some(code) => (f.0, f.1, f.2, code, f.4),
                None => f,
            }
        } else if key == "author"@ {
            (f.0, f.1, f.2, f.3, value)
        } else {
            f
        },
    }
}

/// The module facts after the lines, in order.
pub open spec fn apply_prop_lines(
    f: (Seq<char>, Seq<char>, Seq<char>, u32, Seq<char>),
    ls: Seq<Seq<char>>,
) -> (Seq<char>, Seq<char>, Seq<char>, u32, Seq<char>)
    decreases ls.len(),
{
    if ls.len() == 0 {
        f
    } else {
        apply_prop_line(apply_prop_lines(f, ls.drop_last()), ls.last())
    }
}

/// Applies the lines of a `module.prop` file to the module facts of the
/// state; nothing else changes.
pub fn apply_module_prop_text(state: &mut ReadOnlyState, text: &str)
    ensures
        module_facts(*final(state)) == apply_prop_lines(module_facts(*old(state)), lines(text@)),
        *final(state) == (ReadOnlyState {
            module_id: final(state).module_id,
            module_name: final(state).module_name,
            version: final(state).version,
            version_code: final(state).version_code,
            author: final(state).author,
            ..*old(state)
        }),
{
    let cs = chars_of(text);
    let ls = split_lines(cs.as_slice());
    let ghost lv = views(ls@);
    let eq = chars_of("=");
    let mut i: usize = 0;
    assert(lv.take(0) == Seq::<Seq<char>>::empty());
    while i < ls.len()
        invariant
            i <= ls@.len(),
            lv == views(ls@),
            lv == lines(text@),
            eq@ == "="@,
            module_facts(*state) == apply_prop_lines(module_facts(*old(state)), lv.take(i as int)),
            *state == (ReadOnlyState {
                module_id: state.module_id,
                module_name: state.module_name,
                version: state.version,
                version_code: state.version_code,
                author: state.author,
                ..*old(state)
            }),
        decreases ls@.len() - i,
    {
        proof {
            assert(lv.take(i + 1).drop_last() == lv.take(i as int));
            assert(lv.take(i + 1).last() == ls@[i as int]@);
        }
        let line = ls[i].as_slice();
        match find_chars(line, eq.as_slice()) {
            None => {},
            Some(k) => {
                proof {
                    reveal_strlit("=");
                    lemma_find(line@, eq@);
                }
                assert(k + 1 <= line@.len());
                assert(k < line.len());
                let key = string_of(trimmed(copy_range(line, 0, k).as_slice()).as_slice());
                let value_chars = trimmed(copy_range(line, k + 1, line.len()).as_slice());
                proof {
                    assert(line@.take(k as int) == line@.subrange(0, k as int));
                    assert(line@.skip(k + 1) == line@.subrange(k + 1, line@.len() as int));
                }
                if str_eq(key.as_str(), "id") {
                    state.module_id = string_of(value_chars.as_slice());
                } else if str_eq(key.as_str(), "name") {
                    state.module_name = string_of(value_chars.as_slice());
                } else if str_eq(key.as_str(), "version") {
                    state.version = string_of(value_chars.as_slice());
                } else if str_eq(key.as_str(), "versionCode") {
                    match parse_u32_chars(value_chars.as_slice()) {
                        Some(code) => {
                            state.version_code = code;
                        },
                        None => {},
                    }
                } else if str_eq(key.as_str(), "author") {
                    state.author = string_of(value_chars.as_slice());
                }
            },
        }
        i = i + 1;
    }
    assert(lv.take(ls@.len() as int) == lv);
}

} // verus!

verus! {

/// Whether a directory entry names a CPU core: `cpu` followed by one or more
/// ASCII digits.
pub open spec fn is_cpu_entry(name: Seq<char>) -> bool {
    name.len() > 3 && name.take(3) == "cpu"@ && all_digits(name.skip(3))
}

/// The number of entries that name a CPU core.
pub open spec fn cpu_entry_count(names: Seq<Seq<char>>) -> nat
    decreases names.len(),
{
    if names.len() == 0 {
        0
    } else {
        cpu_entry_count(names.drop_last()) + if is_cpu_entry(names.last()) {
            1nat
        } else {
            0nat
        }
    }
}

/// The views of a sequence of strings.
pub open spec fn string_views(v: Seq<String>) -> Seq<Seq<char>> {
    v.map_values(|s: String| s@)
}

proof fn lemma_cpu_entry_count_bound(names: Seq<Seq<char>>)
    ensures
        cpu_entry_count(names) <= names.len(),
    decreases names.len(),
{
    if names.len() > 0 {
        lemma_cpu_entry_count_bound(names.drop_last());
    }
}

fn is_cpu_entry_exec(name: &[char]) -> (r: bool)
    ensures
        r == is_cpu_entry(name@),
{
    proof {
        reveal_strlit("cpu");
    }
    if name.len() <= 3 || name[0] != 'c' || name[1] != 'p' || name[2] != 'u' {
        proof {
            if name@.len() > 3 && name@.take(3) == "cpu"@ {
                assert(name@.take(3)[0] == 'c' && name@.take(3)[1] == 'p' && name@.take(3)[2] == 'u');
            }
        }
        return false;
    }
    assert(name@.take(3) == "cpu"@);
    let mut i: usize = 3;
    while i < name.len()
        invariant
            3 <= i <= name@.len(),
            forall|j: int| 3 <= j < i ==> is_digit(#[trigger] name@[j]),
        decreases name@.len() - i,
    {
        if !('0' <= name[i] && name[i] <= '9') {
            assert(name@.skip(3)[i - 3] == name@[i as int]);
            return false;
        }
        i = i + 1;
    }
    assert forall|j: int| 0 <= j < name@.skip(3).len() implies is_digit(#[trigger] name@.skip(3)[j]) by {
        assert(name@.skip(3)[j] == name@[j + 3]);
    }
    true
}

/// The number of CPU clusters the daemon reports: the number of CPU core
/// entries, and at least one.
pub fn cpu_cluster_count(names: &[String]) -> (n: u32)
    requires
        names@.len() <= u32::MAX,
    ensures
        n == if cpu_entry_count(string_views(names@)) == 0 {
            1
        } else {
            cpu_entry_count(string_views(names@))
        },
{
    let ghost views_all = string_views(names@);
    let mut count: u32 = 0;
    let mut i: usize = 0;
    while i < names.len()
        invariant
            i <= names@.len(),
            names@.len() <= u32::MAX,
            views_all == string_views(names@),
            count == cpu_entry_count(views_all.take(i as int)),
        decreases names@.len() - i,
    {
        proof {
            assert(views_all.take(i + 1).drop_last() == views_all.take(i as int));
            assert(views_all.take(i + 1).last() == names@[i as int]@);
            lemma_cpu_entry_count_bound(views_all.take(i + 1));
        }
        let cs = chars_of(names[i].as_str());
        if is_cpu_entry_exec(cs.as_slice()) {
            count = count + 1;
        }
        i = i + 1;
    }
    assert(views_all.take(names@.len() as int) == views_all);
    if count == 0 {
        1
    } else {
        count
    }
}

/// The swap size in MiB that a `/proc/meminfo` line gives: a first word
/// `SwapTotal:` followed by a size in KiB.
pub open spec fn swap_line_mib(line: Seq<char>) -> Option<u32> {
    let ws = tokens(line);
    if ws.len() >= 2 && ws[0] == "SwapTotal:"@ {
        match parse_u32(ws[1]) {
            Some(kb) => Some((kb / 1024) as u32),
            None => None,
        }
    } else {
        None
    }
}

/// The swap size of the first line that gives one.
pub open spec fn first_swap_mib(ls: Seq<Seq<char>>) -> Option<u32>
    decreases ls.len(),
{
    if ls.len() == 0 {
        None
    } else {
        match swap_line_mib(ls[0]) {
            Some(v) => Some(v),
            None => first_swap_mib(ls.drop_first()),
        }
    }
}

/// The swap size in MiB from the text of `/proc/meminfo`, 0 when no line
/// gives it.
pub fn swap_total_mib(meminfo: &str) -> (mib: u32)
    ensures
        mib == match first_swap_mib(lines(meminfo@)) {
            Some(v) => v,
            None => 0,
        },
{
    let cs = chars_of(meminfo);
    let ls = split_lines(cs.as_slice());
    let ghost lv = views(ls@);
    let mut i: usize = 0;
    assert(lv.skip(0) == lv);
    while i < ls.len()
        invariant
            i <= ls@.len(),
            lv == views(ls@),
            lv == lines(meminfo@),
            first_swap_mib(lv) == first_swap_mib(lv.skip(i as int)),
        decreases ls@.len() - i,
    {
        proof {
            assert(lv.skip(i as int)[0] == ls@[i as int]@);
            assert(lv.skip(i as int).drop_first() == lv.skip(i + 1));
        }
        let ws = split_tokens(ls[i].as_slice());
        if ws.len() >= 2 && str_eq(string_of(ws[0].as_slice()).as_str(), "SwapTotal:") {
            match parse_u32_chars(ws[1].as_slice()) {
                Some(kb) => {
                    return kb / 1024;
                },
                None => {},
            }
        }
        i = i + 1;
    }
    0
}

/// The kernel release in the text of `/proc/version`: its third word.
pub fn kernel_release_from_proc_version(text: &str) -> (r: Option<String>)
    ensures
        tokens(text@).len() > 2 ==> (r matches Some(s) && s@ == tokens(text@)[2]),
        tokens(text@).len() <= 2 ==> r is None,
{
    let cs = chars_of(text);
    let ws = split_tokens(cs.as_slice());
    if ws.len() > 2 {
        Some(string_of(ws[2].as_slice()))
    } else {
        None
    }
}

/// The status line the daemon logs once it is up.
pub open spec fn daemon_status_line(state: ReadOnlyState) -> Seq<char> {
    "daemon active: apps="@ + decimal(state.app_config@.len()) + " settings="@ + decimal(
        state.settings@.len(),
    ) + " android="@ + state.android_version@ + " kernel="@ + state.kernel_version@ + "\n"@
}

/// Logs the daemon status line: app and settings counts, Android and kernel
/// versions.
pub fn append_daemon_status_log(state: &mut ReadOnlyState)
    ensures
        final(state).log@ == old(state).log@ + daemon_status_line(*old(state)),
        *final(state) == (ReadOnlyState { log: final(state).log, ..*old(state) }),
{
    let mut line = "daemon active: apps=".to_owned();
    push_decimal(&mut line, state.app_config.len() as u128);
    line.append(" settings=");
    push_decimal(&mut line, state.settings.len() as u128);
    line.append(" android=");
    line.append(state.android_version.as_str());
    line.append(" kernel=");
    line.append(state.kernel_version.as_str());
    line.append("\n");
    state.log.append(line.as_str());
}

/// The log line for a hook configuration sync that the hook took.
pub open spec fn sync_line(state: ReadOnlyState) -> Seq<char> {
    "hook config synced: managed_apps="@ + decimal(state.app_config@.len()) + " settings="@
        + decimal(state.settings@.len()) + "\n"@
}

/// Records the hook's answer to a configuration sync: whether it took the
/// configuration, and a log line saying so, logged once.
pub fn note_hook_config_sync(state: &mut ReadOnlyState, synced: bool)
    ensures
        final(state).hook_config_synced == synced,
        synced ==> final(state).log@ == with_line_once(old(state).log@, sync_line(*old(state))),
        !synced ==> final(state).log@ == with_line_once(
            old(state).log@,
            "hook config sync rejected\n"@,
        ),
        *final(state) == (ReadOnlyState {
            log: final(state).log,
            hook_config_synced: synced,
            ..*old(state)
        }),
{
    state.hook_config_synced = synced;
    if synced {
        let mut line = "hook config synced: managed_apps=".to_owned();
        push_decimal(&mut line, state.app_config.len() as u128);
        line.append(" settings=");
        push_decimal(&mut line, state.settings.len() as u128);
        line.append("\n");
        append_log_once(&mut state.log, line.as_str());
    } else {
        append_log_once(&mut state.log, "hook config sync rejected\n");
    }
}

} // verus!
