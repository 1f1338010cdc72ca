//! `Rechecking → Verified → Seeding`: the two steps that guard the library.
//!
//! Both ask the client what it actually found on disk and hand the answer to
//! the resume policy, which is where the "never resume incomplete hardlinked
//! data" rule lives. The status is re-read immediately before resuming rather
//! than trusted from the verify step: the gap between them is exactly where
//! something could have changed.

use vstd::prelude::*;

use super::inject::client_failure;
use super::outcome::{review_error, StepOutcome};
use crate::clock::Timestamp;
use crate::json::{Doc, Json};
use crate::repair::domain::{RepairJob, RepairState, ReviewReason};
use crate::repair::policy::{
    assess_data, decide_approved_resume, queued_recheck_poll_delay, recheck_elapsed,
    recheck_poll_delay, DataVerdict, ResumeDecision, SafetyPolicy,
};
use crate::repair::ports::{Changes, FileCompleteness, JobPatch};
use crate::seeding::domain::progress_json;
use crate::seeding::{ClientError, ClientTorrentState, FileProgress, TorrentStatus};
use crate::staging::MaterializationStrategy;
use crate::torrent::InfoHash;

verus! {

/// How long the hash check has been running.
pub open spec fn checking_for(job: RepairJob, now: Timestamp) -> int {
    match job.rechecking_started_at {
        Some(start) => if start.unix_nanos <= now.unix_nanos {
            now.unix_nanos - start.unix_nanos
        } else {
            0
        },
        None => 0,
    }
}

/// The wait until the hash check is looked at again.
pub open spec fn check_delay(elapsed: int, policy: SafetyPolicy) -> int {
    if policy.recheck_poll_interval@ == 0 {
        policy.recheck_poll_max_interval@
    } else {
        crate::repair::policy::backoff(
            policy.recheck_poll_interval@,
            elapsed,
            policy.recheck_poll_max_interval@,
        )
    }
}

/// The client's answer is a status to act on.
pub open spec fn ready(job: RepairJob, answer: Result<Option<TorrentStatus>, ClientError>) -> bool {
    job.info_hash is Some && (answer matches Ok(Some(status)) && status.state
        != ClientTorrentState::Checking && status.state != ClientTorrentState::Errored)
}

/// What a client's answer comes to that is no status to act on.
pub open spec fn not_ready(
    job: RepairJob,
    policy: SafetyPolicy,
    now: Timestamp,
    answer: Result<Option<TorrentStatus>, ClientError>,
    outcome: StepOutcome,
) -> bool {
    if job.info_hash is None {
        super::inject::hash_missing(outcome, "job reached verification without an info-hash"@)
    } else {
        match answer {
            Ok(Some(status)) => if status.state == ClientTorrentState::Checking {
                let elapsed = checking_for(job, now);
                if elapsed >= policy.recheck_timeout@ {
                    outcome.parks_with(
                        ReviewReason::RecheckTimedOut,
                        crate::json::fact(
                            "elapsed_seconds"@,
                            Doc::Number(elapsed / crate::clock::secs(1)),
                        ),
                    )
                } else if status.queued {
                    outcome.waits(
                        policy.recheck_poll_max_interval@,
                        "hash check queued"@,
                        crate::repair::ports::no_changes(),
                    )
                } else {
                    outcome.waits(
                        check_delay(elapsed, policy),
                        "hash check in progress"@,
                        crate::repair::ports::no_changes(),
                    )
                }
            } else {
                outcome.parks_with(
                    ReviewReason::RecheckErrored,
                    crate::json::fact(
                        "message"@,
                        Doc::text_or_null(
                            match status.message {
                                Some(message) => Some(message@),
                                None => None,
                            },
                        ),
                    ).with("completeness"@, status.completeness.doc()),
                )
            },
            Ok(None) => outcome.rewinds(
                RepairState::Staged,
                "the download client no longer has this torrent"@,
            ),
            Err(error) => super::inject::client_failed(error, outcome),
        }
    }
}

/// Read the client's answer, turning "still checking" and "gone" into outcomes
/// so both callers handle them identically.
pub fn current_status(
    job: &RepairJob,
    policy: &SafetyPolicy,
    now: Timestamp,
    answer: Result<Option<TorrentStatus>, ClientError>,
) -> (r: Result<(InfoHash, TorrentStatus), StepOutcome>)
    requires
        now.in_calendar(),
        job.rechecking_started_at matches Some(start) ==> start.in_calendar(),
    ensures
        match r {
            Ok((info_hash, status)) => ready(*job, answer) && Some(info_hash) == job.info_hash
                && answer == Ok::<Option<TorrentStatus>, ClientError>(Some(status)),
            Err(outcome) => !ready(*job, answer) && not_ready(
                *job,
                *policy,
                now,
                answer,
                outcome,
            ),
        },
{
    let info_hash = match job.info_hash {
        Some(info_hash) => info_hash,
        None => return Err(
            review_error(
                ReviewReason::TorrentUnreadable,
                "job reached verification without an info-hash",
            ),
        ),
    };
    let status = match answer {
        Ok(Some(status)) => status,
        // The torrent is not in the client any more: removed by hand, or lost
        // when the client's state was reset. The staged files are still ours,
        // so go back to injection rather than burning retries on a torrent
        // that is not coming back on its own.
        Ok(None) => return Err(
            StepOutcome::rewind(
                RepairState::Staged,
                "the download client no longer has this torrent",
            ),
        ),
        Err(error) => return Err(client_failure(&error)),
    };
    match status.state {
        ClientTorrentState::Checking => {
            let elapsed = recheck_elapsed(job.rechecking_started_at, now);
            if !elapsed.shorter_than(policy.recheck_timeout) {
                return Err(
                    StepOutcome::review(
                        ReviewReason::RecheckTimedOut,
                        Json::fact("elapsed_seconds", Json::Unsigned(elapsed.as_secs())),
                    ),
                );
            }
            if status.queued {
                Err(StepOutcome::wait(queued_recheck_poll_delay(policy), "hash check queued"))
            } else {
                Err(StepOutcome::wait(recheck_poll_delay(elapsed, policy), "hash check in progress"))
            }
        },
        // An errored torrent does not recover by being asked again, and
        // nothing here may resume one: checked before any other read of the
        // status so it protects `resume` as well as `verify`.
        ClientTorrentState::Errored => {
            let message = match &status.message {
                Some(message) => Some(message.as_str()),
                None => None,
            };
            Err(
                StepOutcome::review(
                    ReviewReason::RecheckErrored,
                    Json::fact("message", Json::text_or_null(message)).with(
                        "completeness",
                        status.completeness.to_json(),
                    ),
                ),
            )
        },
        _ => Ok((info_hash, status)),
    }
}

/// What a per-file breakdown says, file by file.
pub open spec fn completeness_of(file: FileProgress) -> FileCompleteness {
    FileCompleteness {
        torrent_path: file.torrent_path,
        ratio_bits: file.completeness.spec_ratio_bits(),
    }
}

/// What a status teaches about the files: nothing where the client offered no
/// breakdown.
pub open spec fn progress_learned(status: TorrentStatus) -> Changes {
    Changes {
        file_progress: match status.files {
            Some(files) => Some(files@.map_values(|file: FileProgress| completeness_of(file))),
            None => None,
        },
        ..crate::repair::ports::no_changes()
    }
}

/// Turn what the client reported per file into the update that will be written
/// onto each file's row. Empty when the client offered no breakdown, which
/// leaves those rows exactly as they were.
pub fn file_progress_patch(status: &TorrentStatus) -> (r: JobPatch)
    ensures
        r@ == progress_learned(*status),
{
    let mut patch = JobPatch::default();
    match &status.files {
        None => {},
        Some(files) => {
            let mut out: Vec<FileCompleteness> = Vec::new();
            let mut i: usize = 0;
            while i < files.len()
                invariant
                    i <= files@.len(),
                    out@ =~= files@.take(i as int).map_values(
                        |file: FileProgress| completeness_of(file),
                    ),
                decreases files@.len() - i,
            {
                out.push(
                    FileCompleteness {
                        torrent_path: files[i].torrent_path.clone(),
                        ratio_bits: files[i].completeness.ratio_bits(),
                    },
                );
                i += 1;
            }
            assert(files@.take(i as int) =~= files@);
            patch.file_progress = Some(out);
        },
    }
    patch
}

/// What is told of data that is held back.
pub open spec fn held_doc(
    status: TorrentStatus,
    materialization: Option<MaterializationStrategy>,
) -> Doc {
    crate::json::fact("completeness"@, status.completeness.doc()).with(
        "materialization"@,
        Doc::text_or_null(
            match materialization {
                Some(strategy) => Some(strategy.name()),
                None => None,
            },
        ),
    ).with("files"@, crate::seeding::domain::progress_doc(status.files))
}

/// Park a job whose data is held back, with all that is known of the files.
pub fn hold(
    reason: ReviewReason,
    status: &TorrentStatus,
    materialization: Option<MaterializationStrategy>,
) -> (r: StepOutcome)
    ensures
        r.parks(reason, held_doc(*status, materialization), progress_learned(*status)),
{
    let name = match materialization {
        Some(strategy) => Some(strategy.as_str()),
        None => None,
    };
    StepOutcome::review_with(
        reason,
        Json::fact("completeness", status.completeness.to_json()).with(
            "materialization",
            Json::text_or_null(name),
        ).with("files", progress_json(&status.files)),
        file_progress_patch(status),
    )
}

/// What a hash check comes to.
pub open spec fn verified(
    job: RepairJob,
    policy: SafetyPolicy,
    now: Timestamp,
    answer: Result<Option<TorrentStatus>, ClientError>,
    outcome: StepOutcome,
) -> bool {
    if !ready(job, answer) {
        not_ready(job, policy, now, answer, outcome)
    } else {
        let status = answer->Ok_0->0;
        match crate::repair::policy::verdict(status.completeness, job.materialization) {
            DataVerdict::CompleteAndSafe => outcome.advances(
                Some(
                    crate::json::fact("completeness"@, status.completeness.doc()).with(
                        "state"@,
                        Doc::Text(status.state.name()),
                    ),
                ),
                progress_learned(status),
            ),
            DataVerdict::HoldForReview(reason) => outcome.parks(
                reason,
                held_doc(status, job.materialization),
                progress_learned(status),
            ),
        }
    }
}

/// Judge what the hash check found. Only asks whether the data is sound.
/// Whether to start seeding it is the next step's question.
pub fn verify(
    job: &RepairJob,
    policy: &SafetyPolicy,
    now: Timestamp,
    answer: Result<Option<TorrentStatus>, ClientError>,
) -> (r: StepOutcome)
    requires
        now.in_calendar(),
        job.rechecking_started_at matches Some(start) ==> start.in_calendar(),
    ensures
        verified(*job, *policy, now, answer, r),
{
    let status = match current_status(job, policy, now, answer) {
        Ok((_, status)) => status,
        Err(outcome) => return outcome,
    };
    match assess_data(status.completeness, job.materialization) {
        DataVerdict::CompleteAndSafe => StepOutcome::advance_with(
            Json::fact("completeness", status.completeness.to_json()).with(
                "state",
                Json::text(status.state.as_str()),
            ),
            file_progress_patch(&status),
        ),
        DataVerdict::HoldForReview(reason) => hold(reason, &status, job.materialization),
    }
}

/// What the policy says of resuming a job: an operator's approval of this one
/// job counts as permission.
pub open spec fn resume_decision(
    job: RepairJob,
    policy: SafetyPolicy,
    status: TorrentStatus,
) -> ResumeDecision {
    crate::repair::policy::resumption(
        status.completeness,
        job.materialization,
        job.resume_approved
            || policy.auto_resume is WhenVerifiedComplete,
    )
}

/// The torrent may be resumed, or why it may not.
pub open spec fn resume_judged(
    job: RepairJob,
    policy: SafetyPolicy,
    now: Timestamp,
    answer: Result<Option<TorrentStatus>, ClientError>,
    r: Result<(InfoHash, TorrentStatus), StepOutcome>,
) -> bool {
    match r {
        Ok((info_hash, status)) => {
            &&& ready(job, answer)
            &&& Some(info_hash) == job.info_hash
            &&& answer == Ok::<Option<TorrentStatus>, ClientError>(Some(status))
            &&& resume_decision(job, policy, status) is Resume
        },
        Err(outcome) => if !ready(job, answer) {
            not_ready(job, policy, now, answer, outcome)
        } else {
            let status = answer->Ok_0->0;
            resume_decision(job, policy, status) matches ResumeDecision::HoldForReview(reason)
                && outcome.parks(
                reason,
                held_doc(status, job.materialization),
                progress_learned(status),
            )
        },
    }
}

/// Which torrent to resume, with the status it was in, or why none may be.
pub fn may_resume(
    job: &RepairJob,
    policy: &SafetyPolicy,
    now: Timestamp,
    answer: Result<Option<TorrentStatus>, ClientError>,
) -> (r: Result<(InfoHash, TorrentStatus), StepOutcome>)
    requires
        now.in_calendar(),
        job.rechecking_started_at matches Some(start) ==> start.in_calendar(),
    ensures
        resume_judged(*job, *policy, now, answer, r),
{
    let (info_hash, status) = match current_status(job, policy, now, answer) {
        Ok(found) => found,
        Err(outcome) => return Err(outcome),
    };
    match decide_approved_resume(
        status.completeness,
        job.materialization,
        policy,
        job.resume_approved,
    ) {
        ResumeDecision::HoldForReview(reason) => Err(hold(reason, &status, job.materialization)),
        ResumeDecision::Resume => Ok((info_hash, status)),
    }
}

/// What resuming a torrent comes to.
pub open spec fn resumption_judged(
    status: TorrentStatus,
    resumed: Result<(), ClientError>,
    outcome: StepOutcome,
) -> bool {
    match resumed {
        Ok(()) => outcome.advances(
            Some(
                crate::json::fact("resumed"@, Doc::Bool(true)).with(
                    "completeness"@,
                    status.completeness.doc(),
                ),
            ),
            progress_learned(status),
        ),
        Err(error) => super::inject::client_failed(error, outcome),
    }
}

/// Judge what resuming the torrent came to.
pub fn resume(status: &TorrentStatus, resumed: Result<(), ClientError>) -> (r: StepOutcome)
    ensures
        resumption_judged(*status, resumed, r),
{
    match resumed {
        Ok(()) => StepOutcome::advance_with(
            Json::fact("resumed", Json::Bool(true)).with(
                "completeness",
                status.completeness.to_json(),
            ),
            file_progress_patch(status),
        ),
        Err(error) => client_failure(&error),
    }
}

/// The rule that this tool is built around: whatever the operator approved and
/// whatever is configured, data that is not complete is never resumed.
pub proof fn only_complete_data_is_resumed(
    job: RepairJob,
    policy: SafetyPolicy,
    status: TorrentStatus,
)
    requires
        resume_decision(job, policy, status) is Resume,
    ensures
        status.completeness is Complete,
        job.resume_approved || policy.auto_resume is WhenVerifiedComplete,
{
}

/// A torrent that the client no longer has is added again from the staged files,
/// both where its check was to be judged and where it was to be resumed: the
/// repair goes back to `Staged`, and to nowhere else, and needs nobody.
pub proof fn a_lost_torrent_goes_back_to_staged(
    job: RepairJob,
    policy: SafetyPolicy,
    now: Timestamp,
    outcome: StepOutcome,
    r: Result<(InfoHash, TorrentStatus), StepOutcome>,
)
    requires
        job.info_hash is Some,
        verified(job, policy, now, Ok(None), outcome),
        resume_judged(job, policy, now, Ok(None), r),
    ensures
        outcome matches StepOutcome::Rewind { to, .. } && to == RepairState::Staged,
        r matches Err(StepOutcome::Rewind { to, .. }) && to == RepairState::Staged,
{
}

/// A check goes back only over a torrent that is gone; it is parked as errored
/// only where the client says so of the torrent, and as overdue only where it is
/// still checking after all the time it is given.
pub proof fn what_a_check_is_parked_over(
    job: RepairJob,
    policy: SafetyPolicy,
    now: Timestamp,
    answer: Result<Option<TorrentStatus>, ClientError>,
    outcome: StepOutcome,
)
    requires
        verified(job, policy, now, answer, outcome),
    ensures
        outcome is Rewind ==> (answer matches Ok(status) && status is None),
        (outcome matches StepOutcome::Review { reason, .. } && reason
            == ReviewReason::RecheckErrored) <==> job.info_hash is Some && (
        answer matches Ok(Some(status)) && status.state is Errored),
        (outcome matches StepOutcome::Review { reason, .. } && reason
            == ReviewReason::RecheckTimedOut) <==> job.info_hash is Some && (
        answer matches Ok(Some(status)) && status.state is Checking) && (match job.rechecking_started_at {
            Some(start) => if start.unix_nanos <= now.unix_nanos {
                now.unix_nanos - start.unix_nanos
            } else {
                0
            },
            None => 0,
        }) >= policy.recheck_timeout@,
        outcome is Wait ==> (answer matches Ok(Some(status)) && status.state is Checking),
        outcome is Retry ==> answer is Err,
        job.info_hash is None ==> (outcome matches StepOutcome::Review { reason, .. } && reason
            == ReviewReason::TorrentUnreadable),
        job.info_hash is Some ==> (answer matches Err(error) ==> if error is NotImplemented {
            outcome matches StepOutcome::Review { reason, .. } && reason
                == ReviewReason::AdapterNotImplemented
        } else {
            outcome matches StepOutcome::Retry { .. }
        }),
{
}

/// A check that is neither running nor errored is sound exactly where all of the
/// data is there. Otherwise it is parked, and apart where the staged files may
/// be the library's own: they are hardlinks, or nobody knows what they are.
pub proof fn a_finished_check_is_judged_by_the_data(
    job: RepairJob,
    policy: SafetyPolicy,
    now: Timestamp,
    status: TorrentStatus,
    outcome: StepOutcome,
)
    requires
        job.info_hash is Some,
        status.state !is Checking,
        status.state !is Errored,
        verified(job, policy, now, Ok(Some(status)), outcome),
    ensures
        outcome is Advance <==> status.completeness is Complete,
        outcome !is Advance ==> (outcome matches StepOutcome::Review { reason, .. } && reason == if (
        job.materialization matches Some(strategy) && strategy !is Hardlink) {
            ReviewReason::IncompleteData
        } else {
            ReviewReason::AliasedIncompleteData
        }),
{
}

/// While the client is checking, the check is looked at again, no later than the
/// longest interval and, unless it is queued, no sooner than the shortest.
pub proof fn a_running_check_is_looked_at_again(
    job: RepairJob,
    policy: SafetyPolicy,
    now: Timestamp,
    status: TorrentStatus,
    outcome: StepOutcome,
)
    requires
        job.info_hash is Some,
        status.state is Checking,
        verified(job, policy, now, Ok(Some(status)), outcome),
        outcome !is Review,
        0 < policy.recheck_poll_interval@ <= policy.recheck_poll_max_interval@,
    ensures
        outcome matches StepOutcome::Wait { after, .. } && {
            &&& policy.recheck_poll_interval@ <= after@ <= policy.recheck_poll_max_interval@
            &&& status.queued ==> after@ == policy.recheck_poll_max_interval@
            &&& !status.queued && job.rechecking_started_at is None ==> after@
                == policy.recheck_poll_interval@
        },
{
    let elapsed = checking_for(job, now);
    crate::repair::policy::recheck_backoff_is_orderly(
        policy.recheck_poll_interval@,
        policy.recheck_poll_max_interval@,
        0,
        if elapsed >= 0 {
            elapsed
        } else {
            0
        },
    );
}

/// A torrent may be resumed exactly where the client has it, is neither checking
/// it nor reports an error, has all of its data, and either the operator
/// approved this repair or the policy resumes what is verified complete.
pub proof fn a_torrent_is_resumed_exactly_where_it_is_safe_and_allowed(
    job: RepairJob,
    policy: SafetyPolicy,
    now: Timestamp,
    answer: Result<Option<TorrentStatus>, ClientError>,
    r: Result<(InfoHash, TorrentStatus), StepOutcome>,
)
    requires
        resume_judged(job, policy, now, answer, r),
    ensures
        r is Ok <==> {
            &&& job.info_hash is Some
            &&& answer matches Ok(Some(status)) && {
                &&& status.state !is Checking
                &&& status.state !is Errored
                &&& status.completeness is Complete
            }
            &&& job.resume_approved || policy.auto_resume is WhenVerifiedComplete
        },
        r matches Ok((info_hash, status)) ==> job.info_hash == Some(info_hash) && answer
            == Ok::<Option<TorrentStatus>, ClientError>(Some(status)),
        (r matches Err(StepOutcome::Review { reason, .. }) && reason
            == ReviewReason::AutoResumeDisabled) <==> job.info_hash is Some && (answer matches Ok(
            Some(status),
        ) && status.completeness is Complete && status.state !is Checking
            && status.state !is Errored) && !job.resume_approved && policy.auto_resume is Never,
        (r matches Err(StepOutcome::Review { reason, .. }) && (reason
            == ReviewReason::IncompleteData || reason == ReviewReason::AliasedIncompleteData))
            <==> job.info_hash is Some && (answer matches Ok(Some(status))
            && status.completeness !is Complete && status.state !is Checking
            && status.state !is Errored),
        (r matches Err(StepOutcome::Review { reason, .. }) && reason
            == ReviewReason::IncompleteData) ==> (job.materialization matches Some(strategy)
            && strategy !is Hardlink),
        (r matches Err(StepOutcome::Review { reason, .. }) && reason
            == ReviewReason::AliasedIncompleteData) ==> !(job.materialization matches Some(strategy)
            && strategy !is Hardlink),
        r matches Err(outcome) ==> outcome !is Advance,
{
}

/// A torrent that was resumed is on its way; one that could not be is not.
pub proof fn only_a_resumed_torrent_advances(
    status: TorrentStatus,
    resumed: Result<(), ClientError>,
    outcome: StepOutcome,
)
    requires
        resumption_judged(status, resumed, outcome),
    ensures
        outcome is Advance <==> resumed is Ok,
        outcome matches StepOutcome::Advance { patch, .. } ==> patch@ == progress_learned(status),
        resumed matches Err(error) ==> if error is NotImplemented {
            outcome matches StepOutcome::Review { reason, .. } && reason
                == ReviewReason::AdapterNotImplemented
        } else {
            outcome matches StepOutcome::Retry { .. }
        },
{
}

/// What the client said of each file is kept for that file, in order; where it
/// said nothing of files, nothing is kept.
pub proof fn progress_is_kept_file_by_file(status: TorrentStatus)
    ensures
        status.files is None ==> progress_learned(status).file_progress is None,
        status.files matches Some(files) ==> (progress_learned(status).file_progress matches Some(
            kept,
        ) && kept.len() == files@.len() && forall|i: int|
            0 <= i < kept.len() ==> (#[trigger] kept[i]).torrent_path == files@[i].torrent_path
                && kept[i].ratio_bits == files@[i].completeness.spec_ratio_bits()),
        progress_learned(status).files is None,
        progress_learned(status).materialization is None,
        progress_learned(status).resume_approved is None,
{
}

/// What keeps a check from being judged keeps the torrent from being resumed, and
/// comes to the same: a check that runs is waited for as long, one that is overdue
/// or errored is parked over the same, and a torrent that is gone goes back to the
/// same state.
pub proof fn what_holds_a_check_up_holds_resuming_up(
    job: RepairJob,
    policy: SafetyPolicy,
    now: Timestamp,
    answer: Result<Option<TorrentStatus>, ClientError>,
    outcome: StepOutcome,
    r: Result<(InfoHash, TorrentStatus), StepOutcome>,
)
    requires
        verified(job, policy, now, answer, outcome),
        resume_judged(job, policy, now, answer, r),
        job.info_hash is None || !(answer matches Ok(Some(status)) && status.state !is Checking
            && status.state !is Errored),
    ensures
        r matches Err(held) && match (outcome, held) {
            (StepOutcome::Wait { after: a, .. }, StepOutcome::Wait { after: b, .. }) => a@ == b@,
            (StepOutcome::Review { reason: a, .. }, StepOutcome::Review { reason: b, .. }) => a
                == b,
            (StepOutcome::Rewind { to: a, .. }, StepOutcome::Rewind { to: b, .. }) => a == b,
            (StepOutcome::Retry { .. }, StepOutcome::Retry { .. }) => true,
            _ => false,
        },
{
}

/// What was found out about the files is kept whatever the data is worth, and
/// while the check runs nothing is learned.
pub proof fn a_finished_check_teaches_the_progress(
    job: RepairJob,
    policy: SafetyPolicy,
    now: Timestamp,
    status: TorrentStatus,
    outcome: StepOutcome,
)
    requires
        job.info_hash is Some,
        verified(job, policy, now, Ok(Some(status)), outcome),
    ensures
        status.state !is Checking && status.state !is Errored ==> match outcome {
            StepOutcome::Advance { patch, .. } => patch@ == progress_learned(status),
            StepOutcome::Review { patch, .. } => patch@ == progress_learned(status),
            _ => false,
        },
        outcome matches StepOutcome::Wait { patch, .. } ==> patch@
            == crate::repair::ports::no_changes(),
{
}

/// What is told of data that is held back: how complete it is, how it was staged,
/// and how far each file is.
pub proof fn what_is_told_of_held_data(
    status: TorrentStatus,
    materialization: Option<MaterializationStrategy>,
)
    ensures
        held_doc(status, materialization) == Doc::Object(
            seq!["completeness"@, "materialization"@, "files"@],
            seq![
                status.completeness.doc(),
                match materialization {
                    Some(strategy) => Doc::Text(strategy.name()),
                    None => Doc::Null,
                },
                crate::seeding::domain::progress_doc(status.files),
            ],
        ),
{
    let told = held_doc(status, materialization);
    assert(told->Object_0 =~= seq!["completeness"@, "materialization"@, "files"@]);
    assert(told->Object_1 =~= seq![
        status.completeness.doc(),
        match materialization {
            Some(strategy) => Doc::Text(strategy.name()),
            None => Doc::Null,
        },
        crate::seeding::domain::progress_doc(status.files),
    ]);
}

} // verus!
