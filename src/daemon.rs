use vstd::prelude::*;

verus! {

/// Where the control-daemon hook stands. `retry` tells the second round
/// from the first.
#[derive(Debug, Clone, Copy, PartialEq, Eq, Structural)]
pub enum DaemonState {
    /// Waiting for the control daemon to be started.
    Launching { retry: bool },
    /// Waiting for the check whether the server runs for the user.
    Checking { retry: bool },
    /// Waiting out the pause before the second round.
    Pausing,
    /// Finished, with this exit status.
    Finished(i32),
}

/// What the hook has to do next.
#[derive(Debug, Clone, Copy, PartialEq, Eq, Structural)]
pub enum DaemonAction {
    /// Start the control daemon.
    StartControl,
    /// Check whether the server runs for the user.
    CheckServer,
    /// Pause for a second.
    Pause,
    /// Exit with this status.
    Exit(i32),
}

/// What came of the last action.
#[derive(Debug, Clone, Copy, PartialEq, Eq, Structural)]
pub enum DaemonEvent {
    /// The control daemon was started.
    Started,
    /// The control program is not in the search path.
    NotFound,
    /// The control program could not be started for another reason.
    StartFailed,
    /// The server runs for the user.
    ServerUp,
    /// The server does not run for the user.
    ServerDown,
    /// The check itself could not be run.
    CheckFailed,
    /// The pause is over.
    Paused,
}

/// The next state and action: a missing control program ends the hook with
/// 127 and any other start failure with 1; a running server ends it with 0;
/// the first time the server is not seen, the hook pauses and tries once
/// more; the second time, it ends with 1. An event that does not answer the
/// last action leaves the state as it is and repeats that action.
pub open spec fn daemon_next(s: DaemonState, e: DaemonEvent) -> (DaemonState, DaemonAction) {
    match (s, e) {
        (DaemonState::Launching { .. }, DaemonEvent::NotFound) => (DaemonState::Finished(127), DaemonAction::Exit(127)),
        (DaemonState::Launching { .. }, DaemonEvent::StartFailed) => (DaemonState::Finished(1), DaemonAction::Exit(1)),
        (DaemonState::Launching { retry }, DaemonEvent::Started) => (DaemonState::Checking { retry }, DaemonAction::CheckServer),
        (DaemonState::Checking { .. }, DaemonEvent::ServerUp) => (DaemonState::Finished(0), DaemonAction::Exit(0)),
        (DaemonState::Checking { retry: false }, DaemonEvent::ServerDown) => (DaemonState::Pausing, DaemonAction::Pause),
        (DaemonState::Checking { retry: false }, DaemonEvent::CheckFailed) => (DaemonState::Pausing, DaemonAction::Pause),
        (DaemonState::Checking { retry: true }, DaemonEvent::ServerDown) => (DaemonState::Finished(1), DaemonAction::Exit(1)),
        (DaemonState::Checking { retry: true }, DaemonEvent::CheckFailed) => (DaemonState::Finished(1), DaemonAction::Exit(1)),
        (DaemonState::Pausing, DaemonEvent::Paused) => (DaemonState::Launching { retry: true }, DaemonAction::StartControl),
        _ => (s, pending_action(s)),
    }
}

/// The action that a state waits on.
pub open spec fn pending_action(s: DaemonState) -> DaemonAction {
    match s {
        DaemonState::Launching { .. } => DaemonAction::StartControl,
        DaemonState::Checking { .. } => DaemonAction::CheckServer,
        DaemonState::Pausing => DaemonAction::Pause,
        DaemonState::Finished(c) => DaemonAction::Exit(c),
    }
}

/// The first state and action: start the control daemon.
pub fn daemon_begin() -> (r: (DaemonState, DaemonAction))
    ensures
        r == (DaemonState::Launching { retry: false }, DaemonAction::StartControl),
{
    (DaemonState::Launching { retry: false }, DaemonAction::StartControl)
}

/// One decision of the control-daemon hook.
pub fn daemon_step(s: DaemonState, e: DaemonEvent) -> (r: (DaemonState, DaemonAction))
    ensures
        r == daemon_next(s, e),
{
    match (s, e) {
        (DaemonState::Launching { .. }, DaemonEvent::NotFound) => (DaemonState::Finished(127), DaemonAction::Exit(127)),
        (DaemonState::Launching { .. }, DaemonEvent::StartFailed) => (DaemonState::Finished(1), DaemonAction::Exit(1)),
        (DaemonState::Launching { retry }, DaemonEvent::Started) => (DaemonState::Checking { retry }, DaemonAction::CheckServer),
        (DaemonState::Checking { .. }, DaemonEvent::ServerUp) => (DaemonState::Finished(0), DaemonAction::Exit(0)),
        (DaemonState::Checking { retry: false }, DaemonEvent::ServerDown) => (DaemonState::Pausing, DaemonAction::Pause),
        (DaemonState::Checking { retry: false }, DaemonEvent::CheckFailed) => (DaemonState::Pausing, DaemonAction::Pause),
        (DaemonState::Checking { retry: true }, DaemonEvent::ServerDown) => (DaemonState::Finished(1), DaemonAction::Exit(1)),
        (DaemonState::Checking { retry: true }, DaemonEvent::CheckFailed) => (DaemonState::Finished(1), DaemonAction::Exit(1)),
        (DaemonState::Pausing, DaemonEvent::Paused) => (DaemonState::Launching { retry: true }, DaemonAction::StartControl),
        _ => {
            let a = match s {
                DaemonState::Launching { .. } => DaemonAction::StartControl,
                DaemonState::Checking { .. } => DaemonAction::CheckServer,
                DaemonState::Pausing => DaemonAction::Pause,
                DaemonState::Finished(c) => DaemonAction::Exit(c),
            };
            (s, a)
        },
    }
}

/// The number of actions that the hook may still take from a state.
pub open spec fn remaining_actions(s: DaemonState) -> nat {
    match s {
        DaemonState::Launching { retry: false } => 4,
        DaemonState::Checking { retry: false } => 3,
        DaemonState::Pausing => 2,
        DaemonState::Launching { retry: true } => 1,
        DaemonState::Checking { retry: true } => 0,
        DaemonState::Finished(_) => 0,
    }
}

/// The retries are bounded: every event that answers the pending action
/// either finishes the hook or leads to a state with fewer actions left.
pub proof fn lemma_daemon_bounded(s: DaemonState, e: DaemonEvent)
    requires
        !(s is Finished),
        daemon_next(s, e).0 != s,
    ensures
        daemon_next(s, e).0 is Finished || remaining_actions(daemon_next(s, e).0)
            < remaining_actions(s),
{
}

} // verus!
