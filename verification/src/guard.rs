//! Re-entrancy guard: the one-shot branch at the top of a participating test
//! body, and a model of the actions one outer invocation performs.

use vstd::prelude::*;

verus! {

/// What a test body must do, given whether the sandbox marker is present.
#[derive(Clone, Copy, Debug, PartialEq, Eq, Structural)]
pub enum GuardDecision {
    /// The marker is present: this process is the sandboxed copy, so the
    /// body proceeds directly to its real logic.
    RunDirectly,
    /// The marker is absent: the body must hand off to the sandbox launcher
    /// and terminate its own execution path immediately afterwards.
    Relaunch,
}

/// What the launcher does once the child process has exited.
#[derive(Clone, Copy, Debug, PartialEq, Eq, Structural)]
pub enum FollowUp {
    /// The child exited successfully: the outer invocation returns normally.
    ReturnPass,
    /// The child failed: raise the host framework's failure signal carrying
    /// the sentinel payload (the suppressor must be installed first).
    RaiseSuppressedFailure,
}

/// One observable step of a single outer test invocation.
pub enum ProtocolAction {
    /// Spawn the isolated child process.
    Spawn,
    /// Relay the target test's captured output to standard output.
    RelayOutput,
    /// Raise the suppressed failure signal.
    RaiseFailure,
    /// Execute the real test logic in this process.
    RunRealTest,
}

pub open spec fn spec_guard_decision(marker_present: bool) -> GuardDecision {
    if marker_present {
        GuardDecision::RunDirectly
    } else {
        GuardDecision::Relaunch
    }
}

/// The branch every participating test body evaluates exactly once.
pub fn guard_decision(marker_present: bool) -> (d: GuardDecision)
    ensures
        d == spec_guard_decision(marker_present),
        d == GuardDecision::RunDirectly <==> marker_present,
{
    if marker_present {
        GuardDecision::RunDirectly
    } else {
        GuardDecision::Relaunch
    }
}

pub open spec fn spec_follow_up(child_exit_success: bool) -> FollowUp {
    if child_exit_success {
        FollowUp::ReturnPass
    } else {
        FollowUp::RaiseSuppressedFailure
    }
}

/// The launcher's decision after the child process has exited: the exit
/// status alone is authoritative, independent of per-test phase text.
pub fn follow_up(child_exit_success: bool) -> (f: FollowUp)
    ensures
        f == spec_follow_up(child_exit_success),
        f == FollowUp::ReturnPass <==> child_exit_success,
{
    if child_exit_success {
        FollowUp::ReturnPass
    } else {
        FollowUp::RaiseSuppressedFailure
    }
}

/// The actions one outer invocation performs, as a function of the marker
/// and of how the child (if any) exits.
pub open spec fn spec_outer_actions(marker_present: bool, child_exit_success: bool) -> Seq<
    ProtocolAction,
> {
    if marker_present {
        seq![ProtocolAction::RunRealTest]
    } else if child_exit_success {
        seq![ProtocolAction::Spawn, ProtocolAction::RelayOutput]
    } else {
        seq![ProtocolAction::Spawn, ProtocolAction::RelayOutput, ProtocolAction::RaiseFailure]
    }
}

pub open spec fn spec_spawn_count(actions: Seq<ProtocolAction>) -> nat
    decreases actions.len(),
{
    if actions.len() == 0 {
        0
    } else {
        spec_spawn_count(actions.drop_last()) + if actions.last() is Spawn {
            1nat
        } else {
            0nat
        }
    }
}

/// With the marker present the protocol never spawns a child process.
pub proof fn lemma_guard_no_spawn_when_sandboxed(child_exit_success: bool)
    ensures
        spec_spawn_count(spec_outer_actions(true, child_exit_success)) == 0,
{
    reveal_with_fuel(spec_spawn_count, 2);
}

/// With the marker absent the protocol spawns exactly one child process per
/// outer invocation, whatever the child's outcome.
pub proof fn lemma_guard_one_spawn_when_not_sandboxed(child_exit_success: bool)
    ensures
        spec_spawn_count(spec_outer_actions(false, child_exit_success)) == 1,
{
    reveal_with_fuel(spec_spawn_count, 4);
}

} // verus!
