//! The course of a migration run.
//!
//! The phases are submitted one after the other. A phase is submitted
//! only when the phase before it has landed; the first submission that
//! fails ends the run, and what was submitted before stays. Nothing is
//! rolled back: the next run starts from a fresh difference.

use vstd::prelude::*;

verus! {

/// The phases of a migration, in the order of their submission.
#[derive(Clone, Copy, Debug, PartialEq, Eq, Structural)]
pub enum Phase {
    EnsureWorld,
    SyncResources,
    SyncPermissions,
    InitializeContracts,
}

/// Where a run stands.
#[derive(Clone, Copy, Debug, PartialEq, Eq, Structural)]
pub enum RunState {
    /// The phase is the next to submit.
    Pending(Phase),
    /// Every phase has landed.
    Done,
    /// The submission of the phase failed; the phases after it were not
    /// submitted.
    Aborted(Phase),
}

impl Phase {
    /// The place of the phase in the order of submission, from 0.
    pub open spec fn rank(self) -> nat {
        match self {
            Phase::EnsureWorld => 0,
            Phase::SyncResources => 1,
            Phase::SyncPermissions => 2,
            Phase::InitializeContracts => 3,
        }
    }

    /// Where the run stands once the phase has landed.
    pub open spec fn landed(self) -> RunState {
        match self {
            Phase::EnsureWorld => RunState::Pending(Phase::SyncResources),
            Phase::SyncResources => RunState::Pending(Phase::SyncPermissions),
            Phase::SyncPermissions => RunState::Pending(Phase::InitializeContracts),
            Phase::InitializeContracts => RunState::Done,
        }
    }

    /// What is shown while the phase is submitted.
    pub fn label(self) -> (label: &'static str)
        ensures
            label@ == match self {
                Phase::EnsureWorld => "Deploying world..."@,
                Phase::SyncResources => "Syncing resources..."@,
                Phase::SyncPermissions => "Syncing permissions..."@,
                Phase::InitializeContracts => "Initializing contracts..."@,
            },
    {
        match self {
            Phase::EnsureWorld => "Deploying world...",
            Phase::SyncResources => "Syncing resources...",
            Phase::SyncPermissions => "Syncing permissions...",
            Phase::InitializeContracts => "Initializing contracts...",
        }
    }
}

impl RunState {
    /// Where the run stands after the submission of the pending phase
    /// has succeeded or failed. A run that is done or aborted stays so.
    pub open spec fn after(self, succeeded: bool) -> RunState {
        match self {
            RunState::Pending(phase) => if succeeded {
                phase.landed()
            } else {
                RunState::Aborted(phase)
            },
            RunState::Done => RunState::Done,
            RunState::Aborted(phase) => RunState::Aborted(phase),
        }
    }

    /// Where the run stands after a list of submissions, in order.
    pub open spec fn after_all(self, outcomes: Seq<bool>) -> RunState
        decreases outcomes.len(),
    {
        if outcomes.len() == 0 {
            self
        } else {
            self.after(outcomes[0]).after_all(outcomes.drop_first())
        }
    }

    /// A run of which nothing was submitted.
    pub fn start() -> (state: RunState)
        ensures
            state == RunState::Pending(Phase::EnsureWorld),
    {
        RunState::Pending(Phase::EnsureWorld)
    }

    /// The phase to submit next, if the run goes on.
    pub fn pending(&self) -> (phase: Option<Phase>)
        ensures
            phase == match *self {
                RunState::Pending(phase) => Some(phase),
                _ => None::<Phase>,
            },
    {
        match self {
            RunState::Pending(phase) => Some(*phase),
            _ => None,
        }
    }

    /// Takes note of how the submission of the pending phase ended.
    pub fn advance(self, succeeded: bool) -> (next: RunState)
        ensures
            next == self.after(succeeded),
    {
        match self {
            RunState::Pending(phase) => {
                if succeeded {
                    match phase {
                        Phase::EnsureWorld => RunState::Pending(Phase::SyncResources),
                        Phase::SyncResources => RunState::Pending(Phase::SyncPermissions),
                        Phase::SyncPermissions => RunState::Pending(Phase::InitializeContracts),
                        Phase::InitializeContracts => RunState::Done,
                    }
                } else {
                    RunState::Aborted(phase)
                }
            },
            other => other,
        }
    }
}

/// A run that is aborted stays aborted at the same phase, whatever is
/// reported afterwards; a run that is done stays done.
pub proof fn law_finished_run_stays(state: RunState, outcomes: Seq<bool>)
    requires
        !(state is Pending),
    ensures
        state.after_all(outcomes) == state,
    decreases outcomes.len(),
{
    if outcomes.len() > 0 {
        law_finished_run_stays(state, outcomes.drop_first());
    }
}

/// The first submission that fails ends the run at its phase: the
/// phases after it are never pending.
pub proof fn law_first_failure_aborts(state: RunState, outcomes: Seq<bool>, failed: int)
    requires
        state is Pending,
        0 <= failed < outcomes.len(),
        !outcomes[failed],
        forall|i: int| 0 <= i < failed ==> outcomes[i],
        state->Pending_0.rank() + failed <= 3,
    ensures
        state.after_all(outcomes) is Aborted,
        state.after_all(outcomes)->Aborted_0.rank() == state->Pending_0.rank() + failed,
    decreases outcomes.len(),
{
    if failed == 0 {
        law_finished_run_stays(state.after(false), outcomes.drop_first());
    } else {
        assert(outcomes[0]);
        assert forall|i: int| 0 <= i < failed - 1 implies outcomes.drop_first()[i] by {
            assert(outcomes[i + 1]);
        }
        law_first_failure_aborts(state.after(true), outcomes.drop_first(), failed - 1);
    }
}

/// Four submissions that succeed complete the run, and the phases are
/// pending in their order.
pub proof fn law_four_successes_complete_the_run()
    ensures
        RunState::Pending(Phase::EnsureWorld).after(true) == RunState::Pending(Phase::SyncResources),
        RunState::Pending(Phase::SyncResources).after(true) == RunState::Pending(
            Phase::SyncPermissions,
        ),
        RunState::Pending(Phase::SyncPermissions).after(true) == RunState::Pending(
            Phase::InitializeContracts,
        ),
        RunState::Pending(Phase::InitializeContracts).after(true) == RunState::Done,
        RunState::Pending(Phase::EnsureWorld).after_all(seq![true, true, true, true])
            == RunState::Done,
{
    let all = seq![true, true, true, true];
    let three = all.drop_first();
    let two = three.drop_first();
    let one = two.drop_first();
    assert(one.drop_first().len() == 0);
    assert(RunState::Done.after_all(one.drop_first()) == RunState::Done);
    assert(RunState::Pending(Phase::InitializeContracts).after_all(one) == RunState::Done);
    assert(RunState::Pending(Phase::SyncPermissions).after_all(two) == RunState::Done);
    assert(RunState::Pending(Phase::SyncResources).after_all(three) == RunState::Done);
}

} // verus!
