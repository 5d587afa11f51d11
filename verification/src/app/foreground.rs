use vstd::prelude::*;
use crate::domain::policy::ForegroundStrategy;
use crate::domain::runtime::ProcessState;

verus! {

/// Signals other than the process state that show an app to the user.
#[derive(Debug, Clone, Copy, PartialEq, Eq, Default)]
pub struct ForegroundSignals {
    pub has_visible_ui: bool,
    pub has_foreground_service: bool,
    pub has_overlay: bool,
    pub has_audio: bool,
}

/// Whether an app counts as in the foreground.
pub open spec fn is_foreground(
    proc_state: ProcessState,
    strategy: ForegroundStrategy,
    signals: ForegroundSignals,
) -> bool {
    match proc_state {
        ProcessState::Foreground | ProcessState::Visible => true,
        ProcessState::Unknown => strategy == ForegroundStrategy::Strict,
        _ => strategy == ForegroundStrategy::Permissive && (signals.has_visible_ui
            || signals.has_foreground_service || signals.has_overlay || signals.has_audio),
    }
}

/// A foreground or visible process is in the foreground; an unknown state
/// counts as foreground under the strict strategy; a service, cached or
/// empty process counts only under the permissive strategy and only with a
/// visible UI, a foreground service, an overlay or audio.
pub fn classify_foreground(
    proc_state: ProcessState,
    strategy: ForegroundStrategy,
    signals: ForegroundSignals,
) -> (r: bool)
    ensures
        r == is_foreground(proc_state, strategy, signals),
{
    match proc_state {
        ProcessState::Foreground | ProcessState::Visible => true,
        ProcessState::Unknown => strategy == ForegroundStrategy::Strict,
        ProcessState::Service | ProcessState::Cached | ProcessState::Empty => {
            strategy == ForegroundStrategy::Permissive && (signals.has_visible_ui
                || signals.has_foreground_service || signals.has_overlay || signals.has_audio)
        },
    }
}

/// A process that the system reports as foreground or visible is in the
/// foreground whatever the strategy and the signals.
pub proof fn lemma_visible_is_foreground(
    proc_state: ProcessState,
    strategy: ForegroundStrategy,
    signals: ForegroundSignals,
)
    requires
        proc_state == ProcessState::Foreground || proc_state == ProcessState::Visible,
    ensures
        is_foreground(proc_state, strategy, signals),
{
}

/// Under the strict strategy, extra signals never make a background
/// process count as foreground.
pub proof fn lemma_strict_ignores_signals(
    proc_state: ProcessState,
    signals: ForegroundSignals,
)
    ensures
        is_foreground(proc_state, ForegroundStrategy::Strict, signals) == is_foreground(
            proc_state,
            ForegroundStrategy::Strict,
            ForegroundSignals {
                has_visible_ui: false,
                has_foreground_service: false,
                has_overlay: false,
                has_audio: false,
            },
        ),
{
}


/// Under the permissive strategy each signal on its own (a visible UI, a
/// foreground service, an overlay, audio) makes a process of known state
/// count as in the foreground.
pub proof fn law_permissive_signal_is_foreground(
    proc_state: ProcessState,
    signals: ForegroundSignals,
)
    requires
        proc_state != ProcessState::Unknown,
    ensures
        signals.has_visible_ui ==> is_foreground(
            proc_state,
            ForegroundStrategy::Permissive,
            signals,
        ),
        signals.has_foreground_service ==> is_foreground(
            proc_state,
            ForegroundStrategy::Permissive,
            signals,
        ),
        signals.has_overlay ==> is_foreground(proc_state, ForegroundStrategy::Permissive, signals),
        signals.has_audio ==> is_foreground(proc_state, ForegroundStrategy::Permissive, signals),
{
}

/// A service, cached or empty process counts as in the background under
/// the strict strategy, and under the permissive strategy when it shows
/// none of the four signals.
pub proof fn law_background_states(
    proc_state: ProcessState,
    strategy: ForegroundStrategy,
    signals: ForegroundSignals,
)
    requires
        proc_state == ProcessState::Service || proc_state == ProcessState::Cached || proc_state
            == ProcessState::Empty,
    ensures
        strategy == ForegroundStrategy::Strict ==> !is_foreground(proc_state, strategy, signals),
        !signals.has_visible_ui && !signals.has_foreground_service && !signals.has_overlay
            && !signals.has_audio ==> !is_foreground(proc_state, strategy, signals),
{
}

/// A process of unknown state counts as in the foreground under the strict
/// strategy and as in the background under the permissive one.
pub proof fn law_unknown_state(strategy: ForegroundStrategy, signals: ForegroundSignals)
    ensures
        is_foreground(ProcessState::Unknown, strategy, signals) <==> strategy
            == ForegroundStrategy::Strict,
{
}

} // verus!
