use vstd::prelude::*;
use crate::app::controller::{is_control_mode, is_control_policy_mode};
use crate::app::error::{error_message, DaemonError};
use crate::protocol::manager_v1::{ManagerAppConfigRecord, ReadOnlyState};
use crate::protocol::xposed::{
    classify_bridge_error, classify_hook_health_payload, shows_missing_hook,
};
use crate::text::chars::str_eq;
use crate::text::format::{bool_text, push_bool};
use crate::text::scan::contains;

verus! {

/// Whether the manager state allows a control pass: the hook is active and
/// some app record asks for control.
pub open spec fn control_pass_allowed(state: ReadOnlyState) -> bool {
    state.hook_health@ == "active"@ && exists|i: int|
        0 <= i < state.app_config@.len() && is_control_mode(#[trigger] state.app_config@[i].mode)
}

/// Whether a control pass may run now.
pub fn should_run_control_pass(state: &ReadOnlyState) -> (r: bool)
    ensures
        r == control_pass_allowed(*state),
{
    if !str_eq(state.hook_health.as_str(), "active") {
        return false;
    }
    let mut i: usize = 0;
    while i < state.app_config.len()
        invariant
            i <= state.app_config@.len(),
            state.hook_health@ == "active"@,
            forall|j: int| 0 <= j < i ==> !is_control_mode(#[trigger] state.app_config@[j].mode),
        decreases state.app_config@.len() - i,
    {
        if is_control_policy_mode(state.app_config[i].mode) {
            assert(is_control_mode(state.app_config@[i as int].mode));
            return true;
        }
        i = i + 1;
    }
    false
}

/// Whether some record asks for control of the uid.
pub open spec fn controls_uid(app_config: Seq<ManagerAppConfigRecord>, uid: u32) -> bool {
    exists|i: int|
        0 <= i < app_config.len() && is_control_mode(#[trigger] app_config[i].mode)
            && app_config[i].uid == uid
}

/// The uids whose processes a control pass looks for: each uid that some
/// record asks to control, once, in increasing order.
pub fn control_uids(app_config: &[ManagerAppConfigRecord]) -> (r: Vec<u32>)
    ensures
        forall|a: int, b: int| 0 <= a < b < r@.len() ==> r@[a] < r@[b],
        forall|u: u32| r@.contains(u) <==> controls_uid(app_config@, u),
{
    let mut out: Vec<u32> = Vec::new();
    let mut i: usize = 0;
    while i < app_config.len()
        invariant
            i <= app_config@.len(),
            forall|a: int, b: int| 0 <= a < b < out@.len() ==> out@[a] < out@[b],
            forall|u: u32| out@.contains(u) <==> controls_uid(app_config@.take(i as int), u),
        decreases app_config@.len() - i,
    {
        let ghost seen = app_config@.take(i as int);
        let ghost next = app_config@.take(i + 1);
        assert(next == seen.push(app_config@[i as int]));
        let ghost before = out@;
        if is_control_policy_mode(app_config[i].mode) {
            let uid = app_config[i].uid;
            let mut j: usize = 0;
            while j < out.len() && out[j] < uid
                invariant
                    j <= out@.len(),
                    out@ == before,
                    forall|k: int| 0 <= k < j ==> out@[k] < uid,
                decreases out@.len() - j,
            {
                j = j + 1;
            }
            if j == out.len() || out[j] != uid {
                out.insert(j, uid);
                assert forall|a: int, b: int| 0 <= a < b < out@.len() implies out@[a] < out@[b] by {
                    if b < j {
                    } else if a < j && b == j {
                    } else if a < j {
                        assert(before[j as int] > uid);
                        assert(before[a] < uid);
                    } else if a == j {
                        assert(before[j as int] > uid);
                    }
                }
                assert forall|u: u32| out@.contains(u) <==> controls_uid(next, u) by {
                    if controls_uid(next, u) {
                        let w = choose|w: int|
                            0 <= w < next.len() && is_control_mode(#[trigger] next[w].mode)
                                && next[w].uid == u;
                        if w < seen.len() {
                            assert(seen[w] == next[w]);
                            assert(controls_uid(seen, u));
                            assert(before.contains(u));
                            let k = choose|k: int| 0 <= k < before.len() && before[k] == u;
                            if k < j {
                                assert(out@[k] == u);
                            } else {
                                assert(out@[k + 1] == u);
                            }
                        } else {
                            assert(out@[j as int] == u);
                        }
                    }
                    if out@.contains(u) {
                        let k = choose|k: int| 0 <= k < out@.len() && out@[k] == u;
                        if k == j {
                            assert(next[i as int] == app_config@[i as int]);
                        } else {
                            let kb = if k < j { k } else { k - 1 };
                            assert(before[kb] == u);
                            assert(before.contains(u));
                            let w = choose|w: int|
                                0 <= w < seen.len() && is_control_mode(#[trigger] seen[w].mode)
                                    && seen[w].uid == u;
                            assert(next[w] == seen[w]);
                        }
                    }
                }
            } else {
                assert forall|u: u32| out@.contains(u) <==> controls_uid(next, u) by {
                    if controls_uid(next, u) {
                        let w = choose|w: int|
                            0 <= w < next.len() && is_control_mode(#[trigger] next[w].mode)
                                && next[w].uid == u;
                        if w < seen.len() {
                            assert(seen[w] == next[w]);
                            assert(controls_uid(seen, u));
                        } else {
                            assert(out@[j as int] == u);
                        }
                    }
                    if out@.contains(u) {
                        let w = choose|w: int|
                            0 <= w < seen.len() && is_control_mode(#[trigger] seen[w].mode)
                                && seen[w].uid == u;
                        assert(next[w] == seen[w]);
                    }
                }
            }
        } else {
            assert forall|u: u32| out@.contains(u) <==> controls_uid(next, u) by {
                if controls_uid(next, u) {
                    let w = choose|w: int|
                        0 <= w < next.len() && is_control_mode(#[trigger] next[w].mode)
                            && next[w].uid == u;
                    assert(w < seen.len());
                    assert(seen[w] == next[w]);
                    assert(controls_uid(seen, u));
                }
                if out@.contains(u) {
                    let w = choose|w: int|
                        0 <= w < seen.len() && is_control_mode(#[trigger] seen[w].mode)
                            && seen[w].uid == u;
                    assert(next[w] == seen[w]);
                }
            }
        }
        i = i + 1;
    }
    assert(app_config@.take(app_config@.len() as int) == app_config@);
    out
}

/// The foreground uids a control pass works with: a failed query stays a
/// failure, so the pass does not run without them.
pub fn require_foreground_uids_for_control(foreground_uids: Result<Vec<u32>, DaemonError>) -> (r:
    Result<Vec<u32>, DaemonError>)
    ensures
        r == foreground_uids,
{
    foreground_uids
}

/// The health label of a hook health payload.
pub open spec fn payload_health(payload: Seq<char>) -> Seq<char> {
    if contains(payload, "\"status\":\"active\""@) {
        "active"@
    } else {
        "degraded"@
    }
}

/// The health report for a hook health label.
pub open spec fn health_report(hook_health: Seq<char>) -> Seq<char> {
    "{\"status\":\""@ + (if hook_health == "active"@ {
        "active"@
    } else {
        "degraded"@
    }) + "\",\"daemonReady\":true,\"hookHealth\":\""@ + hook_health + "\"}"@
}

/// The self check for a hook health label: control is allowed only with an
/// active hook.
pub open spec fn self_check(hook_health: Seq<char>) -> Seq<char> {
    "{\"controlAllowed\":"@ + bool_text(hook_health == "active"@) + "}"@
}

/// Records the answer of a hook health query: the hook's health label, the
/// hook log, and the health report and self check that follow from them.
/// The daemon itself is active.
pub fn record_hook_health(state: &mut ReadOnlyState, query: Result<String, DaemonError>)
    ensures
        *final(state) == (ReadOnlyState {
            daemon_health: final(state).daemon_health,
            hook_health: final(state).hook_health,
            xp_log: final(state).xp_log,
            health_report_json: final(state).health_report_json,
            self_check_json: final(state).self_check_json,
            ..*old(state)
        }),
        final(state).daemon_health@ == "active"@,
        query matches Ok(p) ==> final(state).hook_health@ == payload_health(p@)
            && final(state).xp_log@ == p@,
        query matches Err(e) ==> final(state).hook_health@ == if shows_missing_hook(
            error_message(&e),
        ) {
            "missing"@
        } else {
            "degraded"@
        } && final(state).xp_log@ == "hook bridge "@ + final(state).hook_health@,
        final(state).health_report_json@ == health_report(final(state).hook_health@),
        final(state).self_check_json@ == self_check(final(state).hook_health@),
{
    let label: &str;
    match query {
        Ok(payload) => {
            let status = classify_hook_health_payload(payload.as_str());
            label = status.health_label();
            state.xp_log = payload;
        },
        Err(error) => {
            let status = classify_bridge_error(&error);
            label = status.health_label();
            let mut log = "hook bridge ".to_owned();
            log.append(label);
            state.xp_log = log;
        },
    }
    state.daemon_health = "active".to_owned();
    state.hook_health = label.to_owned();
    let active = str_eq(label, "active");
    let mut report = "{\"status\":\"".to_owned();
    if active {
        report.append("active");
    } else {
        report.append("degraded");
    }
    report.append("\",\"daemonReady\":true,\"hookHealth\":\"");
    report.append(label);
    report.append("\"}");
    state.health_report_json = report;
    let mut check = "{\"controlAllowed\":".to_owned();
    push_bool(&mut check, active);
    check.append("}");
    state.self_check_json = check;
}

} // verus!

verus! {

/// A hook that is missing or degraded blocks control: no control pass runs
/// and the self check reports control as not allowed.
pub proof fn lemma_inactive_hook_blocks_control(state: ReadOnlyState)
    requires
        state.hook_health@ == "missing"@ || state.hook_health@ == "degraded"@,
    ensures
        !control_pass_allowed(state),
        self_check(state.hook_health@) == "{\"controlAllowed\":false}"@,
{
    reveal_strlit("missing");
    reveal_strlit("degraded");
    reveal_strlit("active");
    reveal_strlit("{\"controlAllowed\":");
    reveal_strlit("}");
    reveal_strlit("{\"controlAllowed\":false}");
    assert(state.hook_health@ != "active"@) by {
        if state.hook_health@ == "missing"@ {
            assert("missing"@[0] != "active"@[0]);
        } else {
            assert("degraded"@[0] != "active"@[0]);
        }
    }
    assert(self_check(state.hook_health@) =~= "{\"controlAllowed\":false}"@);
}


/// A hook health payload reports an active hook exactly when it holds
/// `"status":"active"`; control is allowed only with an active hook, and
/// the health report says `active` only then.
pub proof fn law_hook_health_labels(payload: Seq<char>, hook_health: Seq<char>)
    ensures
        contains(payload, "\"status\":\"active\""@) ==> payload_health(payload) == "active"@,
        !contains(payload, "\"status\":\"active\""@) ==> payload_health(payload) == "degraded"@,
        self_check(hook_health) == if hook_health == "active"@ {
            "{\"controlAllowed\":true}"@
        } else {
            "{\"controlAllowed\":false}"@
        },
{
    reveal_strlit("{\"controlAllowed\":");
    reveal_strlit("}");
    reveal_strlit("{\"controlAllowed\":true}");
    reveal_strlit("{\"controlAllowed\":false}");
    assert(self_check(hook_health) =~= if hook_health == "active"@ {
        "{\"controlAllowed\":true}"@
    } else {
        "{\"controlAllowed\":false}"@
    });
}

} // verus!
