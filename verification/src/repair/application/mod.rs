//! One module per step of the lifecycle.
//!
//! Every step is a function from a job, and what the outside world answered, to
//! a [`StepOutcome`]. Steps do not persist anything: the worker turns the
//! outcome into exactly one transition, which is what keeps "did the side
//! effect happen?" and "was it recorded?" a single question rather than two.
//!
//! Steps must therefore be safe to run again. Where a step performs an external
//! side effect, that effect must be idempotent, because a crash between the
//! effect and the transition will replay it.

pub mod acquire;
pub mod confirm;
pub mod discover;
pub mod inject;
pub mod match_media;
pub mod outcome;
pub mod stage;
pub mod verify;

pub use outcome::StepOutcome;

use vstd::prelude::*;
use vstd::string::*;

use crate::clock::Duration;
use crate::repair::domain::RepairState;

verus! {

/// The work a state calls for.
#[derive(Clone, Copy, Debug, PartialEq, Eq, Structural)]
pub enum Step {
    FetchTorrent,
    MatchMedia,
    StageFiles,
    Inject,
    StartRecheck,
    Verify,
    Resume,
    ConfirmWithTracker,
}

/// Which work a state calls for, if any.
pub open spec fn work_of(state: RepairState) -> Option<Step> {
    match state {
        RepairState::Discovered => Some(Step::FetchTorrent),
        RepairState::TorrentFetched => Some(Step::MatchMedia),
        RepairState::Matched => Some(Step::StageFiles),
        RepairState::Staged => Some(Step::Inject),
        RepairState::Injected => Some(Step::StartRecheck),
        RepairState::Rechecking => Some(Step::Verify),
        RepairState::Verified => Some(Step::Resume),
        RepairState::Seeding => Some(Step::ConfirmWithTracker),
        RepairState::Completed | RepairState::AwaitingReview | RepairState::Failed => None,
    }
}

/// What is to be done in a state, or that nothing is.
pub open spec fn step_told(state: RepairState, r: Result<Step, StepOutcome>) -> bool {
    match r {
        Ok(step) => work_of(state) == Some(step),
        Err(outcome) => work_of(state) is None && outcome.waits(
            crate::clock::secs(3600),
            state.name() + " is not a state the worker acts on"@,
            crate::repair::ports::no_changes(),
        ),
    }
}

/// Dispatch a job to the step its state calls for.
///
/// The exhaustive match is the point: adding a state to the lifecycle makes
/// this fail to compile until somebody decides what happens in it.
pub fn step(state: RepairState) -> (r: Result<Step, StepOutcome>)
    ensures
        step_told(state, r),
{
    match state {
        RepairState::Discovered => Ok(Step::FetchTorrent),
        RepairState::TorrentFetched => Ok(Step::MatchMedia),
        RepairState::Matched => Ok(Step::StageFiles),
        RepairState::Staged => Ok(Step::Inject),
        RepairState::Injected => Ok(Step::StartRecheck),
        RepairState::Rechecking => Ok(Step::Verify),
        RepairState::Verified => Ok(Step::Resume),
        RepairState::Seeding => Ok(Step::ConfirmWithTracker),
        // Not actionable: the worker never claims these.
        RepairState::Completed | RepairState::AwaitingReview | RepairState::Failed => {
            let mut note = state.as_str().to_owned();
            note.append(" is not a state the worker acts on");
            Err(StepOutcome::wait(Duration::from_secs(3600), note.as_str()))
        },
    }
}

/// There is work in exactly the states that the worker acts on.
pub proof fn work_is_for_actionable_states(state: RepairState)
    ensures
        work_of(state) is Some <==> state.actionable(),
{
}

/// Every state of the lifecycle but the last has its own work, and the work of a
/// state is what leads to the next one: fetching, matching, staging, injecting,
/// checking, verifying, resuming, confirming.
pub proof fn the_work_follows_the_lifecycle(a: RepairState, b: RepairState)
    ensures
        work_of(a) is Some && work_of(a) == work_of(b) ==> a == b,
        work_of(RepairState::Discovered) == Some(Step::FetchTorrent),
        work_of(RepairState::TorrentFetched) == Some(Step::MatchMedia),
        work_of(RepairState::Matched) == Some(Step::StageFiles),
        work_of(RepairState::Staged) == Some(Step::Inject),
        work_of(RepairState::Injected) == Some(Step::StartRecheck),
        work_of(RepairState::Rechecking) == Some(Step::Verify),
        work_of(RepairState::Verified) == Some(Step::Resume),
        work_of(RepairState::Seeding) == Some(Step::ConfirmWithTracker),
        a is Completed || a is AwaitingReview || a is Failed ==> work_of(a) is None,
{
}

/// A state without work is left alone for an hour; any other has its step.
pub proof fn a_state_without_work_is_left_alone(state: RepairState, r: Result<Step, StepOutcome>)
    requires
        step_told(state, r),
    ensures
        r is Err <==> state is Completed || state is AwaitingReview || state is Failed,
        r matches Err(outcome) ==> (outcome matches StepOutcome::Wait { after, .. } && after@
            == 3_600_000_000_000),
        r matches Ok(step) ==> match step {
            Step::FetchTorrent => state is Discovered,
            Step::MatchMedia => state is TorrentFetched,
            Step::StageFiles => state is Matched,
            Step::Inject => state is Staged,
            Step::StartRecheck => state is Injected,
            Step::Verify => state is Rechecking,
            Step::Resume => state is Verified,
            Step::ConfirmWithTracker => state is Seeding,
        },
{
}

} // verus!
