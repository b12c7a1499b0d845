//! The refresh supervisor's state machine.
//!
//! A scheduled driver runs the refresh cycle on a timer and must survive
//! any fault in it: a crashed cycle is followed by a fixed backoff and a
//! fresh timer loop, never by termination. The decisions are a pure
//! function from state and event to next state and action; the timer loop
//! that performs the actions lives outside the library.

use vstd::prelude::*;

verus! {

/// Seconds the supervisor waits after a crashed refresh cycle before
/// restarting its timer loop.
pub const RESTART_BACKOFF_SECS: u64 = 10;

/// Where the supervisor stands.
#[derive(Clone, Copy, Debug, PartialEq, Eq, Structural)]
pub enum SupervisorState {
    /// Waiting for the next timer tick.
    Idle,
    /// A refresh cycle is executing.
    Running,
    /// The last refresh cycle faulted; a backoff is pending.
    Crashed,
}

/// What the supervisor is told.
#[derive(Clone, Copy, Debug, PartialEq, Eq, Structural)]
pub enum SupervisorEvent {
    /// The refresh timer fired.
    Tick,
    /// The running refresh cycle finished normally.
    CycleOk,
    /// The running refresh cycle faulted.
    CycleFault,
    /// The post-crash backoff elapsed.
    BackoffDone,
}

/// What the driver must do next.
#[derive(Clone, Copy, Debug, PartialEq, Eq, Structural)]
pub enum SupervisorAction {
    /// Execute one refresh cycle, then report how it ended.
    RunCycle,
    /// Wait for the next timer tick.
    AwaitTick,
    /// Wait [`RESTART_BACKOFF_SECS`], then report the backoff done.
    AwaitBackoff,
}

/// The transition table: a tick starts a cycle; a finished cycle returns
/// to idle; a faulted cycle crashes the supervisor, which waits out the
/// backoff and returns to idle. No state is terminal, and a crashed
/// supervisor never runs a cycle before its backoff has elapsed.
pub open spec fn supervise_spec(
    state: SupervisorState,
    event: SupervisorEvent,
) -> (SupervisorState, SupervisorAction) {
    match (state, event) {
        (SupervisorState::Idle, SupervisorEvent::Tick) => (
            SupervisorState::Running,
            SupervisorAction::RunCycle,
        ),
        (SupervisorState::Idle, _) => (SupervisorState::Idle, SupervisorAction::AwaitTick),
        (SupervisorState::Running, SupervisorEvent::CycleOk) => (
            SupervisorState::Idle,
            SupervisorAction::AwaitTick,
        ),
        (SupervisorState::Running, SupervisorEvent::CycleFault) => (
            SupervisorState::Crashed,
            SupervisorAction::AwaitBackoff,
        ),
        (SupervisorState::Running, _) => (SupervisorState::Running, SupervisorAction::AwaitTick),
        (SupervisorState::Crashed, SupervisorEvent::BackoffDone) => (
            SupervisorState::Idle,
            SupervisorAction::AwaitTick,
        ),
        (SupervisorState::Crashed, _) => (
            SupervisorState::Crashed,
            SupervisorAction::AwaitBackoff,
        ),
    }
}

/// Advance the supervisor: the next state and the action the driver must
/// perform, exactly as the transition table gives them.
pub fn supervise_step(state: SupervisorState, event: SupervisorEvent) -> (r: (
    SupervisorState,
    SupervisorAction,
))
    ensures
        r == supervise_spec(state, event),
{
    match (state, event) {
        (SupervisorState::Idle, SupervisorEvent::Tick) => (
            SupervisorState::Running,
            SupervisorAction::RunCycle,
        ),
        (SupervisorState::Idle, _) => (SupervisorState::Idle, SupervisorAction::AwaitTick),
        (SupervisorState::Running, SupervisorEvent::CycleOk) => (
            SupervisorState::Idle,
            SupervisorAction::AwaitTick,
        ),
        (SupervisorState::Running, SupervisorEvent::CycleFault) => (
            SupervisorState::Crashed,
            SupervisorAction::AwaitBackoff,
        ),
        (SupervisorState::Running, _) => (SupervisorState::Running, SupervisorAction::AwaitTick),
        (SupervisorState::Crashed, SupervisorEvent::BackoffDone) => (
            SupervisorState::Idle,
            SupervisorAction::AwaitTick,
        ),
        (SupervisorState::Crashed, _) => (
            SupervisorState::Crashed,
            SupervisorAction::AwaitBackoff,
        ),
    }
}

} // verus!
