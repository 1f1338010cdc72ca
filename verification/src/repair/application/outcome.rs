//! What a step concluded.

use vstd::prelude::*;
use vstd::string::*;

use crate::clock::Duration;
use crate::json::{Doc, Json};
use crate::not_implemented::NotImplemented;
use crate::repair::domain::{RepairState, ReviewReason};
use crate::repair::ports::{Changes, JobPatch};

verus! {

/// What a step concluded. Deliberately small: there are only so many honest
/// answers to "what happened?".
#[derive(Debug, PartialEq, Eq)]
pub enum StepOutcome {
    /// The step succeeded. Move to the next state.
    Advance { detail: Option<Json>, patch: JobPatch },
    /// A human has to decide. Park the job.
    Review {
        reason: ReviewReason,
        detail: Option<Json>,
        /// Field updates worth keeping even though the job is parking, not
        /// advancing. Recheck progress is the motivating case: the review
        /// page needs it precisely when the recheck did not go cleanly.
        patch: JobPatch,
    },
    /// Reality is behind the persisted state: the torrent is not in the
    /// client any more, the staged files are gone. Move the job back to the
    /// last state that is still true and let it re-do the work.
    ///
    /// The same correction startup reconciliation makes, available mid-flight
    /// so a repair recovers without waiting for a restart.
    Rewind { to: RepairState, note: String },
    /// Not ready yet: a recheck is running, a tracker has not updated. Poll
    /// again later *without* spending an attempt.
    Wait {
        after: Duration,
        note: String,
        /// Telemetry worth persisting even though nothing durable "happened":
        /// the tracker's unknown-answer streak, seeding progress. Applied
        /// without an audit row: it is not a decision, so it does not belong
        /// in the audit trail.
        patch: JobPatch,
    },
    /// Something failed in a way that might not fail next time. Costs an
    /// attempt; running out of attempts parks the job for review.
    Retry { error: String },
}

/// What a detail says, if there is one.
pub open spec fn detail_doc(detail: Option<Json>) -> Option<Doc> {
    match detail {
        Some(json) => Some(json.doc()),
        None => None,
    }
}

impl StepOutcome {
    /// The step succeeded, with that to be told and that learned.
    pub open spec fn advances(self, told: Option<Doc>, learned: Changes) -> bool {
        self matches StepOutcome::Advance { detail, patch } && detail_doc(detail) == told && patch@
            == learned
    }

    /// The job is parked for that reason, with that to be told and that
    /// learned.
    pub open spec fn parks(self, why: ReviewReason, told: Doc, learned: Changes) -> bool {
        self matches StepOutcome::Review { reason, detail, patch } && reason == why && detail_doc(
            detail,
        ) == Some(told) && patch@ == learned
    }

    /// The job is parked for that reason with nothing learned.
    pub open spec fn parks_with(self, why: ReviewReason, told: Doc) -> bool {
        self.parks(why, told, crate::repair::ports::no_changes())
    }

    /// The job goes back to that state.
    pub open spec fn rewinds(self, back_to: RepairState, because: Seq<char>) -> bool {
        self matches StepOutcome::Rewind { to, note } && to == back_to && note@ == because
    }

    /// The job is polled again that much later.
    pub open spec fn waits(self, span: int, because: Seq<char>, learned: Changes) -> bool {
        self matches StepOutcome::Wait { after, note, patch } && after@ == span && note@ == because
            && patch@ == learned
    }

    /// The step is tried again.
    pub open spec fn retries(self, because: Seq<char>) -> bool {
        self matches StepOutcome::Retry { error } && error@ == because
    }

    pub fn advance() -> (r: StepOutcome)
        ensures
            r.advances(None, crate::repair::ports::no_changes()),
    {
        StepOutcome::Advance { detail: None, patch: JobPatch::default() }
    }

    pub fn advance_with(detail: Json, patch: JobPatch) -> (r: StepOutcome)
        ensures
            r.advances(Some(detail.doc()), patch@),
    {
        StepOutcome::Advance { detail: Some(detail), patch }
    }

    pub fn review(reason: ReviewReason, detail: Json) -> (r: StepOutcome)
        ensures
            r.parks_with(reason, detail.doc()),
    {
        StepOutcome::Review { reason, detail: Some(detail), patch: JobPatch::default() }
    }

    pub fn review_with(reason: ReviewReason, detail: Json, patch: JobPatch) -> (r: StepOutcome)
        ensures
            r.parks(reason, detail.doc(), patch@),
    {
        StepOutcome::Review { reason, detail: Some(detail), patch }
    }

    pub fn retry(error: String) -> (r: StepOutcome)
        ensures
            r.retries(error@),
    {
        StepOutcome::Retry { error }
    }

    pub fn wait(after: Duration, note: &str) -> (r: StepOutcome)
        ensures
            r.waits(after@, note@, crate::repair::ports::no_changes()),
    {
        StepOutcome::Wait { after, note: note.to_owned(), patch: JobPatch::default() }
    }

    pub fn wait_with(after: Duration, note: &str, patch: JobPatch) -> (r: StepOutcome)
        ensures
            r.waits(after@, note@, patch@),
    {
        StepOutcome::Wait { after, note: note.to_owned(), patch }
    }

    pub fn rewind(to: RepairState, note: &str) -> (r: StepOutcome)
        ensures
            r.rewinds(to, note@),
    {
        StepOutcome::Rewind { to, note: note.to_owned() }
    }
}

/// What is told of an adapter that is a stub.
pub open spec fn stub_doc(details: NotImplemented) -> Doc {
    crate::json::fact("adapter"@, Doc::Text(details.adapter@)).with(
        "todo"@,
        Doc::Text(details.todo@),
    )
}

/// What is told of an error.
pub open spec fn error_doc(message: Seq<char>) -> Doc {
    crate::json::fact("error"@, Doc::Text(message))
}

/// Park a job that needs an adapter which is a stub.
pub fn review_stub(details: &NotImplemented) -> (r: StepOutcome)
    ensures
        r.parks_with(ReviewReason::AdapterNotImplemented, stub_doc(*details)),
{
    StepOutcome::review(
        ReviewReason::AdapterNotImplemented,
        Json::fact("adapter", Json::text(details.adapter)).with("todo", Json::text(details.todo)),
    )
}

/// Park a job with a message.
pub fn review_error(reason: ReviewReason, message: &str) -> (r: StepOutcome)
    ensures
        r.parks_with(reason, error_doc(message@)),
{
    StepOutcome::review(reason, Json::fact("error", Json::text(message)))
}

/// The sentence about a tracker that is not configured.
pub open spec fn not_configured(tracker: Seq<char>) -> Seq<char> {
    "tracker `"@ + tracker + "` is not configured"@
}

/// Park a job whose tracker is not configured.
pub fn review_unconfigured(tracker: &str) -> (r: StepOutcome)
    ensures
        r.parks_with(
            ReviewReason::TrackerStatusUnclear,
            error_doc(not_configured(tracker@)),
        ),
{
    let mut message = "tracker `".to_owned();
    message.append(tracker);
    message.append("` is not configured");
    review_error(ReviewReason::TrackerStatusUnclear, message.as_str())
}

} // verus!
