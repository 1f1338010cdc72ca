//! The repair lifecycle.
//!
//! One repair job per hit-and-run, advancing through a fixed sequence of
//! states. The sequence is deliberately boring: each state means "everything up
//! to here is durably done", so the worker can always answer "what next?" from
//! the persisted state alone, and a crash costs at most one step's work.

use vstd::prelude::*;

use vstd::string::*;

use crate::clock::Timestamp;
use crate::json::Json;
use crate::staging::MaterializationStrategy;
use crate::text::same;
use crate::torrent::{InfoHash, SafeRelativePath};
use crate::tracker::{TrackerId, TrackerTorrentId};

verus! {

/// Identifies one repair job.
#[derive(Clone, Copy, Debug, PartialEq, Eq, Hash, PartialOrd, Ord, Structural)]
pub struct JobId(pub i64);

impl JobId {
    /// The decimal text of the id.
    pub fn to_text(self) -> (r: String)
        ensures
            r@ == crate::text::signed_decimal(self.0 as int),
    {
        crate::text::signed_decimal_of(self.0)
    }
}

#[derive(Clone, Copy, Debug, PartialEq, Eq, Structural)]
pub enum RepairState {
    /// The tracker says there is a hit-and-run. Nothing has been done yet.
    Discovered,
    /// The `.torrent` is downloaded, parsed, and stored on the job.
    TorrentFetched,
    /// Every file in the torrent has a library file chosen for it.
    Matched,
    /// The chosen files exist in the staging area in the torrent's layout.
    Staged,
    /// The download client has the torrent, paused.
    Injected,
    /// A hash check is running.
    Rechecking,
    /// The client agrees the staged data matches the torrent.
    Verified,
    /// The torrent is resumed and uploading.
    Seeding,
    /// The tracker says the hit-and-run is cleared. Terminal.
    Completed,
    /// A human has to decide. See [`RepairJob::review_from_state`].
    AwaitingReview,
    /// Abandoned. Terminal for the worker; an operator can still restart it.
    Failed,
}

/// The states on the happy path, in order.
pub open spec fn progression() -> Seq<RepairState> {
    seq![
        RepairState::Discovered,
        RepairState::TorrentFetched,
        RepairState::Matched,
        RepairState::Staged,
        RepairState::Injected,
        RepairState::Rechecking,
        RepairState::Verified,
        RepairState::Seeding,
        RepairState::Completed,
    ]
}

impl RepairState {
    /// The name a state is stored under.
    pub open spec fn name(self) -> Seq<char> {
        match self {
            RepairState::Discovered => "discovered"@,
            RepairState::TorrentFetched => "torrent_fetched"@,
            RepairState::Matched => "matched"@,
            RepairState::Staged => "staged"@,
            RepairState::Injected => "injected"@,
            RepairState::Rechecking => "rechecking"@,
            RepairState::Verified => "verified"@,
            RepairState::Seeding => "seeding"@,
            RepairState::Completed => "completed"@,
            RepairState::AwaitingReview => "awaiting_review"@,
            RepairState::Failed => "failed"@,
        }
    }

    /// Position on the happy path, counted from the start; the states off the
    /// path have none.
    pub open spec fn spec_rank(self) -> Option<nat> {
        match self {
            RepairState::Discovered => Some(0),
            RepairState::TorrentFetched => Some(1),
            RepairState::Matched => Some(2),
            RepairState::Staged => Some(3),
            RepairState::Injected => Some(4),
            RepairState::Rechecking => Some(5),
            RepairState::Verified => Some(6),
            RepairState::Seeding => Some(7),
            RepairState::Completed => Some(8),
            RepairState::AwaitingReview => None,
            RepairState::Failed => None,
        }
    }

    /// The state one step further along the happy path.
    pub open spec fn spec_next(self) -> Option<RepairState> {
        match self.spec_rank() {
            Some(rank) => if rank + 1 < progression().len() {
                Some(progression()[rank as int + 1])
            } else {
                None
            },
            None => None,
        }
    }

    /// Nothing moves the job on from here but an operator.
    pub open spec fn terminal(self) -> bool {
        self is Completed || self is Failed
    }

    /// The worker has something to do in this state.
    pub open spec fn actionable(self) -> bool {
        !self.terminal() && self !is AwaitingReview
    }

    /// States on the happy path, in order.
    pub fn progression() -> (r: [RepairState; 9])
        ensures
            r@ == progression(),
    {
        [
            RepairState::Discovered,
            RepairState::TorrentFetched,
            RepairState::Matched,
            RepairState::Staged,
            RepairState::Injected,
            RepairState::Rechecking,
            RepairState::Verified,
            RepairState::Seeding,
            RepairState::Completed,
        ]
    }

    pub fn as_str(self) -> (r: &'static str)
        ensures
            r@ == self.name(),
    {
        match self {
            RepairState::Discovered => "discovered",
            RepairState::TorrentFetched => "torrent_fetched",
            RepairState::Matched => "matched",
            RepairState::Staged => "staged",
            RepairState::Injected => "injected",
            RepairState::Rechecking => "rechecking",
            RepairState::Verified => "verified",
            RepairState::Seeding => "seeding",
            RepairState::Completed => "completed",
            RepairState::AwaitingReview => "awaiting_review",
            RepairState::Failed => "failed",
        }
    }

    /// Read a state back from the name it is stored under.
    pub fn parse(value: &str) -> (r: Result<RepairState, UnknownState>)
        ensures
            match r {
                Ok(state) => value@ == state.name(),
                Err(unknown) => unknown.0@ == value@ && forall|state: RepairState|
                    value@ != #[trigger] state.name(),
            },
            forall|state: RepairState| value@ == #[trigger] state.name() ==> r == Ok::<
                RepairState,
                UnknownState,
            >(state),
    {
        proof {
            state_names_are_distinct();
        }
        let r = if same(value, "discovered") {
            Ok(RepairState::Discovered)
        } else if same(value, "torrent_fetched") {
            Ok(RepairState::TorrentFetched)
        } else if same(value, "matched") {
            Ok(RepairState::Matched)
        } else if same(value, "staged") {
            Ok(RepairState::Staged)
        } else if same(value, "injected") {
            Ok(RepairState::Injected)
        } else if same(value, "rechecking") {
            Ok(RepairState::Rechecking)
        } else if same(value, "verified") {
            Ok(RepairState::Verified)
        } else if same(value, "seeding") {
            Ok(RepairState::Seeding)
        } else if same(value, "completed") {
            Ok(RepairState::Completed)
        } else if same(value, "awaiting_review") {
            Ok(RepairState::AwaitingReview)
        } else if same(value, "failed") {
            Ok(RepairState::Failed)
        } else {
            Err(UnknownState(value.to_owned()))
        };
        proof {
            if let Ok(found) = r {
                assert(found.name() == value@);
            }
        }
        r
    }

    /// Position on the happy path. `None` for the states that sit off it.
    pub fn rank(self) -> (r: Option<usize>)
        ensures
            match r {
                Some(rank) => self.spec_rank() == Some(rank as nat) && progression()[rank as int]
                    == self,
                None => self.spec_rank() is None && !progression().contains(self),
            },
    {
        match self {
            RepairState::Discovered => Some(0),
            RepairState::TorrentFetched => Some(1),
            RepairState::Matched => Some(2),
            RepairState::Staged => Some(3),
            RepairState::Injected => Some(4),
            RepairState::Rechecking => Some(5),
            RepairState::Verified => Some(6),
            RepairState::Seeding => Some(7),
            RepairState::Completed => Some(8),
            RepairState::AwaitingReview => None,
            RepairState::Failed => None,
        }
    }

    /// The one state a successful step may advance to.
    pub fn next(self) -> (r: Option<RepairState>)
        ensures
            r == self.spec_next(),
    {
        match self {
            RepairState::Discovered => Some(RepairState::TorrentFetched),
            RepairState::TorrentFetched => Some(RepairState::Matched),
            RepairState::Matched => Some(RepairState::Staged),
            RepairState::Staged => Some(RepairState::Injected),
            RepairState::Injected => Some(RepairState::Rechecking),
            RepairState::Rechecking => Some(RepairState::Verified),
            RepairState::Verified => Some(RepairState::Seeding),
            RepairState::Seeding => Some(RepairState::Completed),
            RepairState::Completed => None,
            RepairState::AwaitingReview => None,
            RepairState::Failed => None,
        }
    }

    /// Terminal means "the worker will not touch it again". An operator can
    /// still restart a `Failed` job; nothing restarts a `Completed` one.
    pub fn is_terminal(self) -> (r: bool)
        ensures
            r == self.terminal(),
    {
        matches!(self, RepairState::Completed | RepairState::Failed)
    }

    /// Whether the worker should be doing something about this job.
    pub fn is_actionable(self) -> (r: bool)
        ensures
            r == self.actionable(),
    {
        !self.is_terminal() && self != RepairState::AwaitingReview
    }
}

/// No two states share a name, so a stored name says which state was meant.
pub proof fn state_names_are_distinct()
    ensures
        forall|a: RepairState, b: RepairState| #[trigger] a.name() == #[trigger] b.name() ==> a == b,
{
    reveal_strlit("discovered");
    reveal_strlit("torrent_fetched");
    reveal_strlit("matched");
    reveal_strlit("staged");
    reveal_strlit("injected");
    reveal_strlit("rechecking");
    reveal_strlit("verified");
    reveal_strlit("seeding");
    reveal_strlit("completed");
    reveal_strlit("awaiting_review");
    reveal_strlit("failed");
    assert forall|a: RepairState, b: RepairState| #[trigger] a.name() == #[trigger] b.name() implies a
        == b by {
        let (s, t) = (a.name(), b.name());
        assert(s.len() == t.len() && s[0] == t[0] && s[1] == t[1] && s[2] == t[2]);
    }
}

/// A name that is not a state's.
#[derive(Clone, Debug, PartialEq, Eq)]
pub struct UnknownState(pub String);

impl UnknownState {
    /// The message shown for it.
    pub fn message(&self) -> (r: String)
        ensures
            r@ == "unknown repair state `"@ + self.0@ + "`"@,
    {
        let mut out = "unknown repair state `".to_owned();
        out.append(self.0.as_str());
        out.append("`");
        out
    }
}

/// Why a job needs a human. Persisted, so every parked job explains itself.
#[derive(Clone, Copy, Debug, PartialEq, Eq, Structural)]
pub enum ReviewReason {
    /// Several library files fit and nothing chose between them.
    AmbiguousMatch,
    /// Nothing in the library is the right size.
    NoCandidates,
    /// A match was found but is weaker than policy allows.
    ConfidenceBelowPolicy,
    /// No permitted materialization strategy works here.
    MaterializationUnavailable,
    /// The staging filesystem does not have enough free space for this plan.
    InsufficientStagingSpace,
    /// The recheck says the staged data is incomplete.
    IncompleteData,
    /// Incomplete *and* hardlinked into the library. Resuming would let the
    /// client write into the user's media. Never automatic.
    AliasedIncompleteData,
    /// A recheck ran longer than `policy.recheck_timeout_seconds` without
    /// finishing. Never resumed and never retried automatically: a stuck
    /// check does not become unstuck by asking again.
    RecheckTimedOut,
    /// The client reports the torrent as errored. Asking again does not help.
    RecheckErrored,
    /// Complete and safe, but policy says a human presses the button.
    AutoResumeDisabled,
    /// Too many failed attempts at the same step.
    RetryBudgetExhausted,
    /// The adapter for this step is a stub.
    AdapterNotImplemented,
    /// The tracker answered in a way we will not guess about.
    TrackerStatusUnclear,
    /// The torrent contains paths we refuse to create.
    UnsafeTorrentPaths,
    /// The `.torrent` could not be decoded.
    TorrentUnreadable,
    /// The tracker's info-hash and the `.torrent`'s disagree.
    InfoHashMismatch,
    /// A library file moved or changed size between matching and staging.
    LibraryChanged,
    /// The client fetches data for a torrent that was complete and seeding.
    DownloadingDuringSeeding,
}

impl ReviewReason {
    /// The name a reason is stored under.
    pub open spec fn name(self) -> Seq<char> {
        match self {
            ReviewReason::AmbiguousMatch => "ambiguous_match"@,
            ReviewReason::NoCandidates => "no_candidates"@,
            ReviewReason::ConfidenceBelowPolicy => "confidence_below_policy"@,
            ReviewReason::MaterializationUnavailable => "materialization_unavailable"@,
            ReviewReason::InsufficientStagingSpace => "insufficient_staging_space"@,
            ReviewReason::IncompleteData => "incomplete_data"@,
            ReviewReason::AliasedIncompleteData => "aliased_incomplete_data"@,
            ReviewReason::RecheckTimedOut => "recheck_timed_out"@,
            ReviewReason::RecheckErrored => "recheck_errored"@,
            ReviewReason::AutoResumeDisabled => "auto_resume_disabled"@,
            ReviewReason::RetryBudgetExhausted => "retry_budget_exhausted"@,
            ReviewReason::AdapterNotImplemented => "adapter_not_implemented"@,
            ReviewReason::TrackerStatusUnclear => "tracker_status_unclear"@,
            ReviewReason::UnsafeTorrentPaths => "unsafe_torrent_paths"@,
            ReviewReason::TorrentUnreadable => "torrent_unreadable"@,
            ReviewReason::InfoHashMismatch => "info_hash_mismatch"@,
            ReviewReason::LibraryChanged => "library_changed"@,
            ReviewReason::DownloadingDuringSeeding => "downloading_during_seeding"@,
        }
    }

    pub fn as_str(self) -> (r: &'static str)
        ensures
            r@ == self.name(),
    {
        match self {
            ReviewReason::AmbiguousMatch => "ambiguous_match",
            ReviewReason::NoCandidates => "no_candidates",
            ReviewReason::ConfidenceBelowPolicy => "confidence_below_policy",
            ReviewReason::MaterializationUnavailable => "materialization_unavailable",
            ReviewReason::InsufficientStagingSpace => "insufficient_staging_space",
            ReviewReason::IncompleteData => "incomplete_data",
            ReviewReason::AliasedIncompleteData => "aliased_incomplete_data",
            ReviewReason::RecheckTimedOut => "recheck_timed_out",
            ReviewReason::RecheckErrored => "recheck_errored",
            ReviewReason::AutoResumeDisabled => "auto_resume_disabled",
            ReviewReason::RetryBudgetExhausted => "retry_budget_exhausted",
            ReviewReason::AdapterNotImplemented => "adapter_not_implemented",
            ReviewReason::TrackerStatusUnclear => "tracker_status_unclear",
            ReviewReason::UnsafeTorrentPaths => "unsafe_torrent_paths",
            ReviewReason::TorrentUnreadable => "torrent_unreadable",
            ReviewReason::InfoHashMismatch => "info_hash_mismatch",
            ReviewReason::LibraryChanged => "library_changed",
            ReviewReason::DownloadingDuringSeeding => "downloading_during_seeding",
        }
    }

    /// Read a reason back from the name it is stored under.
    pub fn parse(value: &str) -> (r: Option<ReviewReason>)
        ensures
            match r {
                Some(reason) => value@ == reason.name(),
                None => forall|reason: ReviewReason| value@ != #[trigger] reason.name(),
            },
            forall|reason: ReviewReason| value@ == #[trigger] reason.name() ==> r == Some(reason),
    {
        proof {
            review_reason_names_are_distinct();
        }
        let r = if same(value, "ambiguous_match") {
            Some(ReviewReason::AmbiguousMatch)
        } else if same(value, "no_candidates") {
            Some(ReviewReason::NoCandidates)
        } else if same(value, "confidence_below_policy") {
            Some(ReviewReason::ConfidenceBelowPolicy)
        } else if same(value, "materialization_unavailable") {
            Some(ReviewReason::MaterializationUnavailable)
        } else if same(value, "insufficient_staging_space") {
            Some(ReviewReason::InsufficientStagingSpace)
        } else if same(value, "incomplete_data") {
            Some(ReviewReason::IncompleteData)
        } else if same(value, "aliased_incomplete_data") {
            Some(ReviewReason::AliasedIncompleteData)
        } else if same(value, "recheck_timed_out") {
            Some(ReviewReason::RecheckTimedOut)
        } else if same(value, "recheck_errored") {
            Some(ReviewReason::RecheckErrored)
        } else if same(value, "auto_resume_disabled") {
            Some(ReviewReason::AutoResumeDisabled)
        } else if same(value, "retry_budget_exhausted") {
            Some(ReviewReason::RetryBudgetExhausted)
        } else if same(value, "adapter_not_implemented") {
            Some(ReviewReason::AdapterNotImplemented)
        } else if same(value, "tracker_status_unclear") {
            Some(ReviewReason::TrackerStatusUnclear)
        } else if same(value, "unsafe_torrent_paths") {
            Some(ReviewReason::UnsafeTorrentPaths)
        } else if same(value, "torrent_unreadable") {
            Some(ReviewReason::TorrentUnreadable)
        } else if same(value, "info_hash_mismatch") {
            Some(ReviewReason::InfoHashMismatch)
        } else if same(value, "library_changed") {
            Some(ReviewReason::LibraryChanged)
        } else if same(value, "downloading_during_seeding") {
            Some(ReviewReason::DownloadingDuringSeeding)
        } else {
            None
        };
        proof {
            if let Some(found) = r {
                assert(found.name() == value@);
            }
        }
        r
    }

    /// The sentence that tells an operator what happened.
    pub open spec fn sentence(self) -> Seq<char> {
        match self {
            ReviewReason::AmbiguousMatch => "Several library files fit; none could be chosen safely."@,
            ReviewReason::NoCandidates => "No library file matches the torrent's contents."@,
            ReviewReason::ConfidenceBelowPolicy => "The best match is weaker than the configured minimum."@,
            ReviewReason::MaterializationUnavailable => "No permitted way to stage the files works on this filesystem."@,
            ReviewReason::InsufficientStagingSpace => "Not enough free space on the staging filesystem for this repair."@,
            ReviewReason::IncompleteData => "The recheck found the staged data incomplete."@,
            ReviewReason::AliasedIncompleteData => "The staged data is incomplete and hardlinked to the library. Resuming would let the client write into your media."@,
            ReviewReason::RecheckTimedOut => "The recheck did not finish within the configured time limit. It may still be running in the download client — check there before retrying."@,
            ReviewReason::RecheckErrored => "The download client reported an error for this torrent."@,
            ReviewReason::AutoResumeDisabled => "Verified and safe to resume, but policy.auto_resume is \"never\". Set it to \"when_verified_complete\" and retry. Per-job approval from this page is docs/todos/0010-manual-review.md."@,
            ReviewReason::RetryBudgetExhausted => "This step failed too many times in a row."@,
            ReviewReason::AdapterNotImplemented => "The integration needed for this step is not built yet."@,
            ReviewReason::TrackerStatusUnclear => "The tracker's answer could not be interpreted."@,
            ReviewReason::UnsafeTorrentPaths => "The torrent contains file paths SeedMedic refuses to create."@,
            ReviewReason::TorrentUnreadable => "The .torrent file could not be decoded."@,
            ReviewReason::InfoHashMismatch => "The tracker's info-hash does not match the .torrent it served."@,
            ReviewReason::LibraryChanged => "A matched library file moved or changed size before it could be staged."@,
            ReviewReason::DownloadingDuringSeeding => "The client is downloading data for a torrent that was believed complete."@,
        }
    }

    /// One line for the operator, in the web UI.
    pub fn description(self) -> (r: &'static str)
        ensures
            r@ == self.sentence(),
    {
        match self {
            ReviewReason::AmbiguousMatch => "Several library files fit; none could be chosen safely.",
            ReviewReason::NoCandidates => "No library file matches the torrent's contents.",
            ReviewReason::ConfidenceBelowPolicy => "The best match is weaker than the configured minimum.",
            ReviewReason::MaterializationUnavailable => "No permitted way to stage the files works on this filesystem.",
            ReviewReason::InsufficientStagingSpace => "Not enough free space on the staging filesystem for this repair.",
            ReviewReason::IncompleteData => "The recheck found the staged data incomplete.",
            ReviewReason::AliasedIncompleteData => "The staged data is incomplete and hardlinked to the library. Resuming would let the client write into your media.",
            ReviewReason::RecheckTimedOut => "The recheck did not finish within the configured time limit. It may still be running in the download client — check there before retrying.",
            ReviewReason::RecheckErrored => "The download client reported an error for this torrent.",
            ReviewReason::AutoResumeDisabled => "Verified and safe to resume, but policy.auto_resume is \"never\". Set it to \"when_verified_complete\" and retry. Per-job approval from this page is docs/todos/0010-manual-review.md.",
            ReviewReason::RetryBudgetExhausted => "This step failed too many times in a row.",
            ReviewReason::AdapterNotImplemented => "The integration needed for this step is not built yet.",
            ReviewReason::TrackerStatusUnclear => "The tracker's answer could not be interpreted.",
            ReviewReason::UnsafeTorrentPaths => "The torrent contains file paths SeedMedic refuses to create.",
            ReviewReason::TorrentUnreadable => "The .torrent file could not be decoded.",
            ReviewReason::InfoHashMismatch => "The tracker's info-hash does not match the .torrent it served.",
            ReviewReason::LibraryChanged => "A matched library file moved or changed size before it could be staged.",
            ReviewReason::DownloadingDuringSeeding => "The client is downloading data for a torrent that was believed complete.",
        }
    }
}

/// No two reasons share a name, so a stored name says which reason was meant.
pub proof fn review_reason_names_are_distinct()
    ensures
        forall|a: ReviewReason, b: ReviewReason| #[trigger] a.name() == #[trigger] b.name() ==> a
            == b,
{
    reveal_strlit("ambiguous_match");
    reveal_strlit("no_candidates");
    reveal_strlit("confidence_below_policy");
    reveal_strlit("materialization_unavailable");
    reveal_strlit("insufficient_staging_space");
    reveal_strlit("incomplete_data");
    reveal_strlit("aliased_incomplete_data");
    reveal_strlit("recheck_timed_out");
    reveal_strlit("recheck_errored");
    reveal_strlit("auto_resume_disabled");
    reveal_strlit("retry_budget_exhausted");
    reveal_strlit("adapter_not_implemented");
    reveal_strlit("tracker_status_unclear");
    reveal_strlit("unsafe_torrent_paths");
    reveal_strlit("torrent_unreadable");
    reveal_strlit("info_hash_mismatch");
    reveal_strlit("library_changed");
    reveal_strlit("downloading_during_seeding");
    assert forall|a: ReviewReason, b: ReviewReason| #[trigger] a.name() == #[trigger] b.name() implies a
        == b by {
        let (s, t) = (a.name(), b.name());
        assert(s.len() == t.len() && s[0] == t[0] && s[1] == t[1] && s[2] == t[2] && s[9] == t[9]);
    }
}

/// Why a transition is happening. Determines which transitions are legal, and
/// is written to the audit trail verbatim.
#[derive(Clone, Copy, Debug, PartialEq, Eq, Structural)]
pub enum TransitionReason {
    /// A step succeeded.
    Progress,
    /// Something needs a human.
    Review(ReviewReason),
    /// Unrecoverable.
    Failure,
    /// An operator sent a parked job back to the step it stopped at.
    OperatorRetry,
    /// An operator gave up on a parked job.
    OperatorAbandon,
    /// An operator sent a job back to the start. Discards staged data.
    OperatorRestart,
    /// Startup found reality behind the persisted state and moved the job back.
    Reconciliation,
}

impl TransitionReason {
    /// The name a reason is written to the audit trail under.
    pub open spec fn name(self) -> Seq<char> {
        match self {
            TransitionReason::Progress => "progress"@,
            TransitionReason::Review(_) => "review"@,
            TransitionReason::Failure => "failure"@,
            TransitionReason::OperatorRetry => "operator_retry"@,
            TransitionReason::OperatorAbandon => "operator_abandon"@,
            TransitionReason::OperatorRestart => "operator_restart"@,
            TransitionReason::Reconciliation => "reconciliation"@,
        }
    }

    pub fn as_str(self) -> (r: &'static str)
        ensures
            r@ == self.name(),
    {
        match self {
            TransitionReason::Progress => "progress",
            TransitionReason::Review(_) => "review",
            TransitionReason::Failure => "failure",
            TransitionReason::OperatorRetry => "operator_retry",
            TransitionReason::OperatorAbandon => "operator_abandon",
            TransitionReason::OperatorRestart => "operator_restart",
            TransitionReason::Reconciliation => "reconciliation",
        }
    }
}

/// Why the transition is refused, where it is: the whole transition table.
///
/// `review_from` is the state a parked job must return to.
pub open spec fn refusal(
    from: RepairState,
    to: RepairState,
    reason: TransitionReason,
    review_from: Option<RepairState>,
) -> Option<Seq<char>> {
    match reason {
        TransitionReason::Progress => if from.spec_next() == Some(to) {
            None
        } else {
            Some("progress may only advance one step along the lifecycle"@)
        },
        TransitionReason::Review(_) => if to !is AwaitingReview {
            Some("review must move to awaiting_review"@)
        } else if !from.actionable() {
            Some("only a job the worker is acting on can be parked"@)
        } else {
            None
        },
        TransitionReason::Failure => if to !is Failed {
            Some("failure must move to failed"@)
        } else if from.terminal() {
            Some("a terminal job cannot fail again"@)
        } else {
            None
        },
        TransitionReason::OperatorRetry => if from !is AwaitingReview {
            Some("only a parked job can be retried"@)
        } else if review_from != Some(to) {
            Some("a retry must resume the exact step the job stopped at"@)
        } else {
            None
        },
        TransitionReason::OperatorAbandon => if from !is AwaitingReview {
            Some("only a parked job can be abandoned"@)
        } else if to !is Failed {
            Some("abandoning must move to failed"@)
        } else {
            None
        },
        TransitionReason::OperatorRestart => if from !is AwaitingReview && from !is Failed {
            Some("only a parked or failed job can be restarted"@)
        } else if to !is Discovered {
            Some("a restart must return to discovered"@)
        } else {
            None
        },
        TransitionReason::Reconciliation => match (from.spec_rank(), to.spec_rank()) {
            (Some(from_rank), Some(to_rank)) => if to_rank < from_rank {
                None
            } else {
                Some("reconciliation may only move a job backwards"@)
            },
            _ => Some("reconciliation only applies to the lifecycle states"@),
        },
    }
}

/// The transition table allows it.
pub open spec fn legal(
    from: RepairState,
    to: RepairState,
    reason: TransitionReason,
    review_from: Option<RepairState>,
) -> bool {
    refusal(from, to, reason, review_from) is None
}

/// A validated state change. The only way to construct one is
/// [`validate_transition`], so a `Transition` value is proof the rules held.
#[derive(Clone, Copy, Debug, PartialEq, Eq, Structural)]
pub struct Transition {
    from: RepairState,
    to: RepairState,
    reason: TransitionReason,
}

impl Transition {
    #[verifier::type_invariant]
    spec fn rules_held(self) -> bool {
        exists|review_from: Option<RepairState>|
            legal(self.from, self.to, self.reason, review_from)
    }

    pub closed spec fn spec_from(self) -> RepairState {
        self.from
    }

    pub closed spec fn spec_to(self) -> RepairState {
        self.to
    }

    pub closed spec fn spec_reason(self) -> TransitionReason {
        self.reason
    }

    /// Where the job was. Whatever made the value, the transition table allows
    /// it.
    pub fn from(&self) -> (r: RepairState)
        ensures
            r == self.spec_from(),
            exists|review_from: Option<RepairState>|
                legal(self.spec_from(), self.spec_to(), self.spec_reason(), review_from),
    {
        proof {
            use_type_invariant(self);
        }
        self.from
    }

    pub fn to(&self) -> (r: RepairState)
        ensures
            r == self.spec_to(),
    {
        self.to
    }

    pub fn reason(&self) -> (r: TransitionReason)
        ensures
            r == self.spec_reason(),
    {
        self.reason
    }
}

#[derive(Clone, Copy, Debug, PartialEq, Eq)]
pub struct InvalidTransition {
    pub from: RepairState,
    pub to: RepairState,
    pub reason: &'static str,
    pub because: &'static str,
}

impl InvalidTransition {
    /// The sentence shown for it.
    pub open spec fn sentence(self) -> Seq<char> {
        "cannot move a repair from "@ + self.from.name() + " to "@ + self.to.name() + " ("@
            + self.reason@ + "): "@ + self.because@
    }

    pub fn message(&self) -> (r: String)
        ensures
            r@ == self.sentence(),
    {
        let mut out = "cannot move a repair from ".to_owned();
        out.append(self.from.as_str());
        out.append(" to ");
        out.append(self.to.as_str());
        out.append(" (");
        out.append(self.reason);
        out.append("): ");
        out.append(self.because);
        out
    }
}

/// What a judged transition comes to.
pub open spec fn validated(
    from: RepairState,
    to: RepairState,
    reason: TransitionReason,
    review_from: Option<RepairState>,
    r: Result<Transition, InvalidTransition>,
) -> bool {
    match r {
        Ok(transition) => {
            &&& legal(from, to, reason, review_from)
            &&& transition.spec_from() == from
            &&& transition.spec_to() == to
            &&& transition.spec_reason() == reason
        },
        Err(error) => {
            &&& error.from == from
            &&& error.to == to
            &&& error.reason@ == reason.name()
            &&& refusal(from, to, reason, review_from) == Some(error.because@)
        },
    }
}

/// The whole transition table, in one place.
///
/// `review_from` is the state a parked job must return to; it is only consulted
/// for [`TransitionReason::OperatorRetry`], and its absence there is itself an
/// error rather than a licence to guess.
pub fn validate_transition(
    from: RepairState,
    to: RepairState,
    reason: TransitionReason,
    review_from: Option<RepairState>,
) -> (r: Result<Transition, InvalidTransition>)
    ensures
        validated(from, to, reason, review_from, r),
{
    let because: Option<&'static str> = match reason {
        TransitionReason::Progress => match from.next() {
            Some(next) => if next == to {
                None
            } else {
                Some("progress may only advance one step along the lifecycle")
            },
            None => Some("progress may only advance one step along the lifecycle"),
        },
        TransitionReason::Review(_) => if to != RepairState::AwaitingReview {
            Some("review must move to awaiting_review")
        } else if !from.is_actionable() {
            Some("only a job the worker is acting on can be parked")
        } else {
            None
        },
        TransitionReason::Failure => if to != RepairState::Failed {
            Some("failure must move to failed")
        } else if from.is_terminal() {
            Some("a terminal job cannot fail again")
        } else {
            None
        },
        TransitionReason::OperatorRetry => if from != RepairState::AwaitingReview {
            Some("only a parked job can be retried")
        } else {
            match review_from {
                Some(step) => if step == to {
                    None
                } else {
                    Some("a retry must resume the exact step the job stopped at")
                },
                None => Some("a retry must resume the exact step the job stopped at"),
            }
        },
        TransitionReason::OperatorAbandon => if from != RepairState::AwaitingReview {
            Some("only a parked job can be abandoned")
        } else if to != RepairState::Failed {
            Some("abandoning must move to failed")
        } else {
            None
        },
        TransitionReason::OperatorRestart => if from != RepairState::AwaitingReview && from
            != RepairState::Failed {
            Some("only a parked or failed job can be restarted")
        } else if to != RepairState::Discovered {
            Some("a restart must return to discovered")
        } else {
            None
        },
        TransitionReason::Reconciliation => match (from.rank(), to.rank()) {
            (Some(from_rank), Some(to_rank)) => if to_rank < from_rank {
                None
            } else {
                Some("reconciliation may only move a job backwards")
            },
            _ => Some("reconciliation only applies to the lifecycle states"),
        },
    };
    match because {
        None => {
            assert(legal(from, to, reason, review_from));
            Ok(Transition { from, to, reason })
        },
        Some(because) => Err(InvalidTransition { from, to, reason: reason.as_str(), because }),
    }
}

// ---------------------------------------------------------------------------
// Laws of the lifecycle
// ---------------------------------------------------------------------------

/// Progress moves a job exactly one step forward.
pub proof fn progress_is_one_step(
    from: RepairState,
    to: RepairState,
    review_from: Option<RepairState>,
)
    requires
        legal(from, to, TransitionReason::Progress, review_from),
    ensures
        from.spec_rank() is Some,
        to.spec_rank() == Some((from.spec_rank()->0 + 1) as nat),
{
}

/// From every state on the happy path but the last, progress can go on; the
/// path begins at `Discovered` and ends at `Completed`.
pub proof fn progress_walks_the_whole_lifecycle(rank: int)
    requires
        0 <= rank < progression().len() - 1,
    ensures
        legal(progression()[rank], progression()[rank + 1], TransitionReason::Progress, None),
        progression().first() == RepairState::Discovered,
        progression().last() == RepairState::Completed,
{
}

/// Reconciliation only ever moves a job backwards along the happy path.
pub proof fn reconciliation_only_moves_backwards(
    from: RepairState,
    to: RepairState,
    review_from: Option<RepairState>,
)
    requires
        legal(from, to, TransitionReason::Reconciliation, review_from),
    ensures
        from.spec_rank() is Some,
        to.spec_rank() is Some,
        to.spec_rank()->0 < from.spec_rank()->0,
{
}

/// No step of the worker and no operator moves a completed repair.
pub proof fn a_completed_repair_is_not_moved(
    to: RepairState,
    reason: TransitionReason,
    review_from: Option<RepairState>,
)
    requires
        reason !is Reconciliation,
    ensures
        !legal(RepairState::Completed, to, reason, review_from),
{
}

/// A job is parked exactly from the states the worker acts on.
pub proof fn exactly_the_actionable_states_can_be_parked(
    from: RepairState,
    why: ReviewReason,
    review_from: Option<RepairState>,
)
    ensures
        legal(
            from,
            RepairState::AwaitingReview,
            TransitionReason::Review(why),
            review_from,
        ) <==> from.actionable(),
{
}

/// A parked job goes on where it stopped, or to the start, or nowhere: no
/// reason lets review skip work.
pub proof fn review_never_skips_work(
    to: RepairState,
    reason: TransitionReason,
    review_from: Option<RepairState>,
)
    requires
        legal(RepairState::AwaitingReview, to, reason, review_from),
    ensures
        review_from == Some(to) || to is Discovered || to is Failed,
{
}

/// A repair job as persisted.
///
/// The `.torrent` bytes and the per-file plan are stored alongside it but
/// fetched separately: most of the time the workflow only needs the header.
#[derive(Debug, PartialEq, Eq)]
pub struct RepairJob {
    pub id: JobId,
    pub tracker: TrackerId,
    pub torrent_id: TrackerTorrentId,
    pub torrent_name: String,
    pub state: RepairState,
    /// Set exactly when `state` is `AwaitingReview`.
    pub review_from_state: Option<RepairState>,
    pub review_reason: Option<ReviewReason>,
    pub failure_reason: Option<String>,
    pub info_hash: Option<InfoHash>,
    pub total_bytes: Option<u64>,
    pub staging_dir: Option<SafeRelativePath>,
    pub materialization: Option<MaterializationStrategy>,
    /// When the current `rechecking` episode began: the moment of the
    /// `injected → rechecking` transition. Drives the adaptive poll backoff
    /// and the recheck ceiling; unset outside that state.
    pub rechecking_started_at: Option<Timestamp>,
    /// When the tracker wants the hit-and-run settled, if it says.
    pub deadline: Option<Timestamp>,
    /// What the client reports as uploaded. Telemetry only.
    pub uploaded_bytes: Option<u64>,
    /// How long the client reports to have been seeding. Telemetry only.
    pub seeding_seconds: Option<u64>,
    /// An operator approved resuming this one job.
    pub resume_approved: bool,
    /// How many tracker answers in a row could not be interpreted.
    pub consecutive_unknown_tracker_status: u32,
    pub attempts: u32,
    pub next_attempt_at: Option<Timestamp>,
    pub created_at: Timestamp,
    pub updated_at: Timestamp,
}

/// The directory a job's files live in.
pub open spec fn staging_dir_name(id: JobId) -> Seq<char> {
    "job-"@ + crate::text::signed_decimal(id.0 as int)
}

impl RepairJob {
    /// Validate a transition for *this* job, so callers cannot forget to pass
    /// `review_from_state`.
    pub fn plan_transition(&self, to: RepairState, reason: TransitionReason) -> (r: Result<
        Transition,
        InvalidTransition,
    >)
        ensures
            validated(self.state, to, reason, self.review_from_state, r),
    {
        validate_transition(self.state, to, reason, self.review_from_state)
    }

    /// The step a successful attempt would complete.
    pub fn advance(&self) -> (r: Result<Transition, InvalidTransition>)
        ensures
            match self.state.spec_next() {
                Some(next) => r matches Ok(transition) && transition.spec_from() == self.state
                    && transition.spec_to() == next && transition.spec_reason()
                    == TransitionReason::Progress,
                None => r matches Err(error) && error.from == self.state && error.to == self.state
                    && error.reason@ == "progress"@ && error.because@
                    == "progress may only advance one step along the lifecycle"@,
            },
    {
        let to = match self.state.next() {
            Some(next) => next,
            None => self.state,
        };
        self.plan_transition(to, TransitionReason::Progress)
    }

    /// Where this job's files live, relative to the staging root.
    pub fn default_staging_dir(&self) -> (r: SafeRelativePath)
        ensures
            r@ == staging_dir_name(self.id),
    {
        let mut name = "job-".to_owned();
        name.append(self.id.to_text().as_str());
        proof {
            job_names_are_safe(self.id);
        }
        let r = SafeRelativePath::parse(name.as_str());
        r.unwrap()
    }
}

/// Generated directory names are ordinary names.
proof fn job_names_are_safe(id: JobId)
    ensures
        crate::torrent::path::safe_path(staging_dir_name(id)),
{
    let n = id.0 as int;
    let name = staging_dir_name(id);
    let size: nat = (if n < 0 {
        -n
    } else {
        n
    }) as nat;
    reveal_strlit("job-");
    reveal_strlit(".");
    reveal_strlit("..");
    crate::text::decimal_is_digits(size);
    assert(crate::text::ten_to(19) == 10_000_000_000_000_000_000) by {
        reveal_with_fuel(crate::text::ten_to, 20);
    }
    crate::text::decimal_len_bound(size, 19);
    let digits = crate::text::signed_decimal(n);
    assert(digits.len() <= 20);
    assert forall|i: int| 0 <= i < name.len() implies '-' <= #[trigger] name[i] <= 'o' && name[i]
        != '/' && name[i] != '\\' by {
        if i >= 4 {
            assert(name[i] == digits[i - 4]);
            if n < 0 {
                if i > 4 {
                    assert(digits[i - 4] == crate::text::decimal(size)[i - 5]);
                }
            }
        }
    }
    vstd::utf8::is_ascii_chars_encode_utf8(name);
    assert(crate::text::byte_len(name) == name.len());
    assert(!name.contains('/'));
    crate::text::fields_of_plain(name, '/');
    assert(name[0] == 'j');
    assert(name != "."@) by {
        assert("."@[0] == '.');
    }
    assert(name != ".."@) by {
        assert(".."@[0] == '.');
    }
    assert(crate::torrent::path::safe_component(name));
    assert(crate::text::fields(name, '/')[0] == name);
}

/// One row of the audit trail.
#[derive(Debug, PartialEq, Eq)]
pub struct TransitionRecord {
    pub from: RepairState,
    pub to: RepairState,
    pub reason: String,
    pub detail: Option<Json>,
    pub occurred_at: Timestamp,
}

/// The lifecycle, from the warning to the clearance, has nine states in this
/// order; the two beside it are where a human decides and where nobody will.
pub proof fn the_lifecycle_in_order(a: RepairState, b: RepairState)
    ensures
        a.spec_next() == match a {
            RepairState::Discovered => Some(RepairState::TorrentFetched),
            RepairState::TorrentFetched => Some(RepairState::Matched),
            RepairState::Matched => Some(RepairState::Staged),
            RepairState::Staged => Some(RepairState::Injected),
            RepairState::Injected => Some(RepairState::Rechecking),
            RepairState::Rechecking => Some(RepairState::Verified),
            RepairState::Verified => Some(RepairState::Seeding),
            RepairState::Seeding => Some(RepairState::Completed),
            _ => None,
        },
        a.spec_next() == Some(b) ==> a.spec_rank() is Some && b.spec_rank() == Some(
            (a.spec_rank()->0 + 1) as nat,
        ),
        RepairState::Discovered.spec_rank() == Some(0nat),
        a.spec_rank() is None <==> a is AwaitingReview || a is Failed,
        a.terminal() <==> a is Completed || a is Failed,
        a.actionable() <==> a.spec_next() is Some,
{
}

/// Every move that is allowed is one of these: one step on; from a state with
/// work to review; from anything unfinished to failure; from review back to where
/// it was parked, to failure or to the start; from failure to the start; and
/// from a state of the lifecycle to an earlier one.
pub proof fn which_moves_are_allowed(
    from: RepairState,
    to: RepairState,
    reason: TransitionReason,
    review_from: Option<RepairState>,
)
    ensures
        legal(from, to, reason, review_from) <==> match reason {
            TransitionReason::Progress => from.spec_next() == Some(to),
            TransitionReason::Review(_) => to is AwaitingReview && from !is AwaitingReview
                && from !is Completed && from !is Failed,
            TransitionReason::Failure => to is Failed && from !is Completed && from !is Failed,
            TransitionReason::OperatorRetry => from is AwaitingReview && review_from == Some(to),
            TransitionReason::OperatorAbandon => from is AwaitingReview && to is Failed,
            TransitionReason::OperatorRestart => to is Discovered && (from is AwaitingReview
                || from is Failed),
            TransitionReason::Reconciliation => from.spec_rank() is Some && to.spec_rank() is Some
                && to.spec_rank()->0 < from.spec_rank()->0,
        },
{
}

/// A transition is made exactly of a move that is allowed, and says what was
/// asked for; one that is refused says so too, and why.
pub proof fn a_transition_is_made_of_an_allowed_move(
    from: RepairState,
    to: RepairState,
    reason: TransitionReason,
    review_from: Option<RepairState>,
    r: Result<Transition, InvalidTransition>,
)
    requires
        validated(from, to, reason, review_from, r),
    ensures
        r is Ok <==> legal(from, to, reason, review_from),
        r matches Ok(t) ==> t.spec_from() == from && t.spec_to() == to && t.spec_reason() == reason,
        r matches Err(e) ==> e.from == from && e.to == to,
{
}

/// The directory of a job is `job-` and its number, so no two jobs share one.
pub proof fn every_job_has_its_own_directory(a: JobId, b: JobId)
    requires
        a.0 >= 0,
        b.0 >= 0,
        staging_dir_name(a) == staging_dir_name(b),
    ensures
        a == b,
{
    let prefix = "job-"@;
    let (x, y) = (
        crate::text::signed_decimal(a.0 as int),
        crate::text::signed_decimal(b.0 as int),
    );
    assert(x =~= staging_dir_name(a).skip(prefix.len() as int));
    assert(y =~= staging_dir_name(b).skip(prefix.len() as int));
    crate::text::decimal_injective(a.0 as nat, b.0 as nat);
}

} // verus!
