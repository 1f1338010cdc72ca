//! `Seeding → Completed`: ask the tracker whether the hit-and-run is gone.
//!
//! A torrent seeding happily in the client proves nothing on its own: the
//! tracker decides when a hit-and-run is cleared, and until it says so this
//! job stays in `Seeding`, being polled. But a repair can sit here for days,
//! and in that window the client is the only thing that would notice if the
//! torrent stopped seeding, so every poll checks both.

use vstd::prelude::*;

use super::inject::client_failure;
use super::outcome::{review_error, review_stub, review_unconfigured, StepOutcome};
use super::verify::{file_progress_patch, hold};
use crate::json::{Doc, Json};
use crate::repair::domain::{RepairJob, RepairState, ReviewReason};
use crate::repair::policy::{decide_resume, ResumeDecision, SafetyPolicy};
use crate::repair::ports::{Changes, JobPatch};
use crate::seeding::domain::progress_json;
use crate::seeding::{ClientError, ClientTorrentState, TorrentStatus};
use crate::torrent::InfoHash;
use crate::tracker::{HitAndRunStatus, TrackerError};

verus! {

/// The tracker has not cleared the hit-and-run, and the client is asked next.
#[derive(Clone, Copy, Debug, PartialEq, Eq)]
pub struct StillOutstanding {
    /// The torrent to ask the client about.
    pub info_hash: InfoHash,
    /// Whether the tracker's answer could be interpreted.
    pub understood: bool,
}

/// What a tracker's answer comes to.
pub open spec fn tracker_judged(
    job: RepairJob,
    answer: Option<Result<HitAndRunStatus, TrackerError>>,
    r: Result<StillOutstanding, StepOutcome>,
) -> bool {
    match (answer, r) {
        (None, Err(outcome)) => outcome.parks_with(
            ReviewReason::TrackerStatusUnclear,
            super::outcome::error_doc(super::outcome::not_configured(job.tracker@)),
        ),
        (Some(Ok(HitAndRunStatus::Cleared)), Err(outcome)) => outcome.advances(
            None,
            crate::repair::ports::no_changes(),
        ),
        (Some(Ok(status)), Ok(next)) => {
            &&& status !is Cleared
            &&& job.info_hash == Some(next.info_hash)
            &&& next.understood == (status is Active)
        },
        (Some(Ok(_)), Err(outcome)) => job.info_hash is None && super::inject::hash_missing(
            outcome,
            "job reached seeding confirmation without an info-hash"@,
        ),
        (Some(Err(TrackerError::NotImplemented(details))), Err(outcome)) => outcome.parks_with(
            ReviewReason::AdapterNotImplemented,
            super::outcome::stub_doc(details),
        ),
        (Some(Err(error)), Err(outcome)) => outcome.retries(error.sentence()),
        _ => false,
    }
}

/// Read the tracker's answer. `None` stands for a tracker that is not
/// configured.
///
/// An answer that cannot be interpreted is neither an advance nor a failure.
pub fn read_tracker(job: &RepairJob, answer: Option<Result<HitAndRunStatus, TrackerError>>) -> (r:
    Result<StillOutstanding, StepOutcome>)
    ensures
        tracker_judged(*job, answer, r),
{
    let understood: bool = match answer {
        None => return Err(review_unconfigured(job.tracker.as_str())),
        Some(Err(error)) => return Err(
            match &error {
                TrackerError::NotImplemented(details) => review_stub(details),
                _ => StepOutcome::retry(error.message()),
            },
        ),
        Some(Ok(HitAndRunStatus::Cleared)) => return Err(StepOutcome::advance()),
        Some(Ok(HitAndRunStatus::Active)) => true,
        Some(Ok(HitAndRunStatus::Unknown)) => false,
    };
    match job.info_hash {
        Some(info_hash) => Ok(StillOutstanding { info_hash, understood }),
        None => Err(
            review_error(
                ReviewReason::TorrentUnreadable,
                "job reached seeding confirmation without an info-hash",
            ),
        ),
    }
}

/// What the client had to say, boiled down to "keep waiting", "resume it and
/// keep waiting" or "stop here".
#[derive(Debug, PartialEq, Eq)]
pub enum ClientCheck {
    Healthy(TorrentStatus),
    /// The torrent is paused and may be resumed.
    Resume(TorrentStatus),
    Exit(StepOutcome),
}

/// What is told of a torrent that downloads while it should be seeding.
pub open spec fn downloading_doc(status: TorrentStatus) -> Doc {
    crate::json::fact("completeness"@, status.completeness.doc()).with(
        "files"@,
        crate::seeding::domain::progress_doc(status.files),
    )
}

/// What the policy says of resuming a torrent that was found paused.
pub open spec fn paused_decision(
    job: RepairJob,
    policy: SafetyPolicy,
    status: TorrentStatus,
) -> ResumeDecision {
    crate::repair::policy::resumption(
        status.completeness,
        job.materialization,
        policy.auto_resume is WhenVerifiedComplete,
    )
}

/// What a client's answer comes to while the torrent should be seeding.
pub open spec fn client_judged(
    job: RepairJob,
    policy: SafetyPolicy,
    answer: Result<Option<TorrentStatus>, ClientError>,
    check: ClientCheck,
) -> bool {
    match answer {
        Ok(Some(status)) => match status.state {
            ClientTorrentState::Seeding | ClientTorrentState::Checking => check
                == ClientCheck::Healthy(status),
            ClientTorrentState::Paused => match paused_decision(job, policy, status) {
                ResumeDecision::Resume => check == ClientCheck::Resume(status),
                ResumeDecision::HoldForReview(reason) => check matches ClientCheck::Exit(outcome)
                    && outcome.parks(
                    reason,
                    super::verify::held_doc(status, job.materialization),
                    super::verify::progress_learned(status),
                ),
            },
            ClientTorrentState::Downloading => check matches ClientCheck::Exit(outcome)
                && outcome.parks(
                ReviewReason::DownloadingDuringSeeding,
                downloading_doc(status),
                super::verify::progress_learned(status),
            ),
            ClientTorrentState::Errored => check matches ClientCheck::Exit(outcome)
                && outcome.rewinds(
                RepairState::Staged,
                "the download client reported this torrent as errored while seeding"@,
            ),
        },
        Ok(None) => check matches ClientCheck::Exit(outcome) && outcome.rewinds(
            RepairState::Staged,
            "the download client no longer has this torrent"@,
        ),
        Err(error) => check matches ClientCheck::Exit(outcome) && super::inject::client_failed(
            error,
            outcome,
        ),
    }
}

/// The other half of a `Seeding`-state poll: is the torrent still doing what
/// we left it doing?
///
/// `Checking` is treated the same as `Seeding` here: nothing in this lifecycle
/// re-triggers a check once a torrent is seeding, so if one is running it is
/// outside our control, and it will resolve to `Paused` or `Errored` on its
/// own, at which point this function sees it.
pub fn check_client(
    job: &RepairJob,
    policy: &SafetyPolicy,
    answer: Result<Option<TorrentStatus>, ClientError>,
) -> (r: ClientCheck)
    ensures
        client_judged(*job, *policy, answer, r),
{
    let status = match answer {
        Ok(Some(status)) => status,
        Ok(None) => return ClientCheck::Exit(
            StepOutcome::rewind(
                RepairState::Staged,
                "the download client no longer has this torrent",
            ),
        ),
        Err(error) => return ClientCheck::Exit(client_failure(&error)),
    };
    match status.state {
        ClientTorrentState::Seeding | ClientTorrentState::Checking => ClientCheck::Healthy(status),
        // Somebody paused it, or a restart did. Never resume without asking
        // the same rule that governed the original resume.
        ClientTorrentState::Paused => match decide_resume(
            status.completeness,
            job.materialization,
            policy,
        ) {
            ResumeDecision::HoldForReview(reason) => ClientCheck::Exit(
                hold(reason, &status, job.materialization),
            ),
            ResumeDecision::Resume => ClientCheck::Resume(status),
        },
        // The client is fetching data for a torrent we believed was complete
        // and seeding. The staged data was not actually complete, and it may
        // be hardlinked into the library: this is the case that most needs a
        // human, and never resolves itself by waiting.
        ClientTorrentState::Downloading => ClientCheck::Exit(
            StepOutcome::review_with(
                ReviewReason::DownloadingDuringSeeding,
                Json::fact("completeness", status.completeness.to_json()).with(
                    "files",
                    progress_json(&status.files),
                ),
                file_progress_patch(&status),
            ),
        ),
        // Errored: the staged files are still ours, so go back to injection
        // rather than parking on a torrent that will not recover on its own.
        ClientTorrentState::Errored => ClientCheck::Exit(
            StepOutcome::rewind(
                RepairState::Staged,
                "the download client reported this torrent as errored while seeding",
            ),
        ),
    }
}

/// What resuming a paused torrent comes to.
pub open spec fn resumed_again(
    status: TorrentStatus,
    resumed: Result<(), ClientError>,
    check: ClientCheck,
) -> bool {
    match resumed {
        Ok(()) => check == ClientCheck::Healthy(status),
        Err(error) => check matches ClientCheck::Exit(outcome) && super::inject::client_failed(
            error,
            outcome,
        ),
    }
}

/// Judge what resuming the paused torrent came to.
pub fn after_resume(status: TorrentStatus, resumed: Result<(), ClientError>) -> (r: ClientCheck)
    ensures
        resumed_again(status, resumed, r),
{
    match resumed {
        Ok(()) => ClientCheck::Healthy(status),
        Err(error) => ClientCheck::Exit(client_failure(&error)),
    }
}

/// How many answers in a row could not be interpreted, this one counted.
pub open spec fn streak(job: RepairJob, understood: bool) -> u32 {
    if understood {
        0
    } else if job.consecutive_unknown_tracker_status < u32::MAX {
        (job.consecutive_unknown_tracker_status + 1) as u32
    } else {
        u32::MAX
    }
}

/// What a poll of a seeding torrent teaches.
pub open spec fn poll_learned(job: RepairJob, understood: bool, status: TorrentStatus) -> Changes {
    Changes {
        consecutive_unknown_tracker_status: Some(streak(job, understood)),
        uploaded_bytes: Some(status.uploaded_bytes),
        seeding_seconds: status.seeding_seconds,
        ..crate::repair::ports::no_changes()
    }
}

/// What a poll of a seeding torrent comes to.
pub open spec fn seeding_judged(
    job: RepairJob,
    policy: SafetyPolicy,
    understood: bool,
    status: TorrentStatus,
    outcome: StepOutcome,
) -> bool {
    if !understood && streak(job, false) >= policy.max_consecutive_unknown_tracker_status {
        outcome.parks(
            ReviewReason::TrackerStatusUnclear,
            super::outcome::error_doc("tracker's answer could not be interpreted"@).with(
                "consecutive"@,
                Doc::Number(streak(job, false) as int),
            ),
            poll_learned(job, understood, status),
        )
    } else {
        outcome.waits(
            policy.tracker_poll_interval@,
            if understood {
                "tracker still shows the hit-and-run as outstanding"@
            } else {
                "tracker's answer could not be interpreted"@
            },
            poll_learned(job, understood, status),
        )
    }
}

/// The torrent seeds and the tracker has not cleared the hit-and-run: keep
/// seeding and keep asking, unless too many answers in a row could not be
/// interpreted.
pub fn confirm_with_tracker(
    job: &RepairJob,
    policy: &SafetyPolicy,
    understood: bool,
    status: &TorrentStatus,
) -> (r: StepOutcome)
    ensures
        seeding_judged(*job, *policy, understood, *status, r),
{
    let count: u32 = if understood {
        0
    } else {
        job.consecutive_unknown_tracker_status.saturating_add(1)
    };
    let mut patch = JobPatch::default();
    patch.consecutive_unknown_tracker_status = Some(count);
    patch.uploaded_bytes = Some(status.uploaded_bytes);
    patch.seeding_seconds = status.seeding_seconds;
    if understood {
        StepOutcome::wait_with(
            policy.tracker_poll_interval,
            "tracker still shows the hit-and-run as outstanding",
            patch,
        )
    } else if count >= policy.max_consecutive_unknown_tracker_status {
        StepOutcome::review_with(
            ReviewReason::TrackerStatusUnclear,
            Json::fact("error", Json::text("tracker's answer could not be interpreted")).with(
                "consecutive",
                Json::Unsigned(count as u64),
            ),
            patch,
        )
    } else {
        StepOutcome::wait_with(
            policy.tracker_poll_interval,
            "tracker's answer could not be interpreted",
            patch,
        )
    }
}

/// A repair advances to completion exactly when the tracker cleared the
/// hit-and-run.
pub proof fn only_clearance_completes_a_repair(
    job: RepairJob,
    answer: Option<Result<HitAndRunStatus, TrackerError>>,
    r: Result<StillOutstanding, StepOutcome>,
)
    requires
        tracker_judged(job, answer, r),
    ensures
        (r matches Err(outcome) && outcome is Advance) <==> (answer matches Some(
            Ok(HitAndRunStatus::Cleared),
        )),
{
}

/// A torrent found paused is resumed only where its data is complete.
pub proof fn a_paused_torrent_is_resumed_only_when_complete(
    job: RepairJob,
    policy: SafetyPolicy,
    answer: Result<Option<TorrentStatus>, ClientError>,
    check: ClientCheck,
)
    requires
        client_judged(job, policy, answer, check),
        check is Resume,
    ensures
        check->Resume_0.completeness is Complete,
        check->Resume_0.state is Paused,
        policy.auto_resume is WhenVerifiedComplete,
{
}

/// What the client says never completes a repair: only the tracker does.
pub proof fn the_client_never_completes_a_repair(
    job: RepairJob,
    policy: SafetyPolicy,
    answer: Result<Option<TorrentStatus>, ClientError>,
    check: ClientCheck,
)
    requires
        client_judged(job, policy, answer, check),
    ensures
        check matches ClientCheck::Exit(outcome) ==> !(outcome is Advance),
{
}

/// A tracker that is not configured and one whose adapter is a stub park the
/// job, one that failed is asked again, and one that still shows the
/// hit-and-run, or answers what cannot be interpreted, leaves it to the client,
/// where the job knows its torrent.
pub proof fn what_a_tracker_says_short_of_clearance(
    job: RepairJob,
    answer: Option<Result<HitAndRunStatus, TrackerError>>,
    r: Result<StillOutstanding, StepOutcome>,
)
    requires
        tracker_judged(job, answer, r),
    ensures
        answer is None ==> (r matches Err(StepOutcome::Review { reason, .. }) && reason
            == ReviewReason::TrackerStatusUnclear),
        answer matches Some(Err(error)) ==> if error is NotImplemented {
            r matches Err(StepOutcome::Review { reason, .. }) && reason
                == ReviewReason::AdapterNotImplemented
        } else {
            r matches Err(outcome) && outcome is Retry
        },
        r is Ok <==> (answer matches Some(Ok(status)) && status !is Cleared)
            && job.info_hash is Some,
        r matches Ok(next) ==> job.info_hash == Some(next.info_hash) && (next.understood <==> (
        answer matches Some(Ok(status)) && status is Active)),
        (answer matches Some(Ok(status)) && status !is Cleared) && job.info_hash is None ==> (
        r matches Err(StepOutcome::Review { reason, .. }) && reason
            == ReviewReason::TorrentUnreadable),
{
}

/// While a torrent should be seeding: one that seeds or is checked is left
/// alone; one that is gone or errored is added again from the staged files; one
/// that downloads is parked, for it was believed complete; and one that is
/// paused is resumed where its data is complete and the policy resumes what is
/// verified complete, and parked otherwise.
pub proof fn a_seeding_torrent_is_kept_seeding(
    job: RepairJob,
    policy: SafetyPolicy,
    answer: Result<Option<TorrentStatus>, ClientError>,
    check: ClientCheck,
)
    requires
        client_judged(job, policy, answer, check),
    ensures
        check is Healthy <==> (answer matches Ok(Some(status)) && (status.state is Seeding
            || status.state is Checking)),
        check is Resume <==> (answer matches Ok(Some(status)) && status.state is Paused
            && status.completeness is Complete && policy.auto_resume is WhenVerifiedComplete),
        (answer matches Ok(found) && found is None) ==> (check matches ClientCheck::Exit(
            StepOutcome::Rewind { to, .. },
        ) && to == RepairState::Staged),
        (answer matches Ok(Some(status)) && status.state is Errored) ==> (
        check matches ClientCheck::Exit(StepOutcome::Rewind { to, .. }) && to
            == RepairState::Staged),
        (answer matches Ok(Some(status)) && status.state is Downloading) ==> (
        check matches ClientCheck::Exit(StepOutcome::Review { reason, .. }) && reason
            == ReviewReason::DownloadingDuringSeeding),
        (answer matches Ok(Some(status)) && status.state is Paused && status.completeness is Complete
            && policy.auto_resume is Never) ==> (check matches ClientCheck::Exit(
            StepOutcome::Review { reason, .. },
        ) && reason == ReviewReason::AutoResumeDisabled),
        (answer matches Ok(Some(status)) && status.state is Paused
            && status.completeness !is Complete) ==> (check matches ClientCheck::Exit(
            StepOutcome::Review { reason, .. },
        ) && reason == if (job.materialization matches Some(strategy) && strategy !is Hardlink) {
            ReviewReason::IncompleteData
        } else {
            ReviewReason::AliasedIncompleteData
        }),
        answer matches Err(error) ==> if error is NotImplemented {
            check matches ClientCheck::Exit(StepOutcome::Review { reason, .. }) && reason
                == ReviewReason::AdapterNotImplemented
        } else {
            check matches ClientCheck::Exit(StepOutcome::Retry { .. })
        },
        check matches ClientCheck::Healthy(status) ==> answer == Ok::<
            Option<TorrentStatus>,
            ClientError,
        >(Some(status)),
        check matches ClientCheck::Resume(status) ==> answer == Ok::<
            Option<TorrentStatus>,
            ClientError,
        >(Some(status)),
{
}

/// A torrent that was resumed counts as seeding, with the status it had.
pub proof fn a_resumed_torrent_is_healthy(
    status: TorrentStatus,
    resumed: Result<(), ClientError>,
    check: ClientCheck,
)
    requires
        resumed_again(status, resumed, check),
    ensures
        resumed is Ok ==> check == ClientCheck::Healthy(status),
        resumed matches Err(error) ==> if error is NotImplemented {
            check matches ClientCheck::Exit(StepOutcome::Review { reason, .. }) && reason
                == ReviewReason::AdapterNotImplemented
        } else {
            check matches ClientCheck::Exit(StepOutcome::Retry { .. })
        },
{
}

/// A poll of a seeding torrent waits for the next one, unless this is at least
/// the last answer in a row that may go uninterpreted. An answer that could be
/// interpreted never parks the job and starts the count anew; one that could not
/// adds to it. What the client counted is kept either way.
pub proof fn unclear_answers_in_a_row_park_the_job(
    job: RepairJob,
    policy: SafetyPolicy,
    understood: bool,
    status: TorrentStatus,
    outcome: StepOutcome,
)
    requires
        seeding_judged(job, policy, understood, status, outcome),
        job.consecutive_unknown_tracker_status < u32::MAX,
    ensures
        outcome is Review <==> !understood && job.consecutive_unknown_tracker_status + 1
            >= policy.max_consecutive_unknown_tracker_status,
        outcome matches StepOutcome::Review { reason, patch, .. } ==> {
            &&& reason == ReviewReason::TrackerStatusUnclear
            &&& patch.consecutive_unknown_tracker_status == Some(
                (job.consecutive_unknown_tracker_status + 1) as u32,
            )
            &&& patch.uploaded_bytes == Some(status.uploaded_bytes)
        },
        outcome !is Review ==> (outcome matches StepOutcome::Wait { after, patch, .. } && {
            &&& after@ == policy.tracker_poll_interval@
            &&& patch.consecutive_unknown_tracker_status == Some(
                if understood {
                    0u32
                } else {
                    (job.consecutive_unknown_tracker_status + 1) as u32
                },
            )
            &&& patch.uploaded_bytes == Some(status.uploaded_bytes)
            &&& patch.seeding_seconds == status.seeding_seconds
            &&& patch.files is None
            &&& patch.resume_approved is None
        }),
{
}

} // verus!
