//! `Staged → Injected → Rechecking`: hand the torrent to the download client.
//!
//! Always paused. The client is not allowed to start doing anything with the
//! staged data until a hash check has run and the resume policy has agreed.

use vstd::prelude::*;

use super::outcome::{review_error, review_stub, StepOutcome};
use crate::clock::Timestamp;
use crate::json::{Doc, Json};
use crate::repair::domain::{RepairJob, RepairState, ReviewReason};
use crate::repair::ports::{Changes, JobPatch, StoreError};
use crate::seeding::{AddTorrent, ClientError, TorrentStatus};
use crate::torrent::InfoHash;

verus! {

/// What a failure of the client comes to: a stub is parked, anything else is
/// tried again.
pub open spec fn client_failed(error: ClientError, outcome: StepOutcome) -> bool {
    match error {
        ClientError::NotImplemented(details) => outcome.parks_with(
            ReviewReason::AdapterNotImplemented,
            super::outcome::stub_doc(details),
        ),
        _ => outcome.retries(error.sentence()),
    }
}

pub fn client_failure(error: &ClientError) -> (r: StepOutcome)
    ensures
        client_failed(*error, r),
{
    match error {
        ClientError::NotImplemented(details) => review_stub(details),
        _ => StepOutcome::retry(error.message()),
    }
}

/// A job without an info-hash cannot be handed to the client.
pub open spec fn hash_missing(outcome: StepOutcome, message: Seq<char>) -> bool {
    outcome.parks_with(ReviewReason::TorrentUnreadable, super::outcome::error_doc(message))
}

/// The request adds a job's torrent; or why there is none.
pub open spec fn injection_prepared(
    job: RepairJob,
    stored: Result<Option<Vec<u8>>, StoreError>,
    staging_root: Seq<char>,
    category: Option<String>,
    r: Result<AddTorrent, StepOutcome>,
) -> bool {
    match r {
        Ok(request) => {
            &&& job.info_hash == Some(request.info_hash)
            &&& stored matches Ok(Some(bytes)) && bytes@ == request.torrent_file@
            &&& job.staging_dir matches Some(dir) && request.save_path@
                == crate::torrent::path::below(staging_root, dir@)
            &&& request.category == category
        },
        Err(outcome) => if job.info_hash is None || job.staging_dir is None {
            hash_missing(
                outcome,
                "job reached injection without an info-hash or staging directory"@,
            )
        } else {
            match stored {
                Ok(Some(_)) => false,
                Ok(None) => hash_missing(outcome, "the stored .torrent is missing"@),
                Err(error) => outcome.retries(error.sentence()),
            }
        },
    }
}

/// The torrent to add for a job, or why none can be. `stored` is the `.torrent`
/// that was fetched.
pub fn injection_request(
    job: &RepairJob,
    stored: Result<Option<Vec<u8>>, StoreError>,
    staging_root: &str,
    category: &Option<String>,
) -> (r: Result<AddTorrent, StepOutcome>)
    ensures
        injection_prepared(*job, stored, staging_root@, *category, r),
{
    let (info_hash, staging_dir) = match (job.info_hash, &job.staging_dir) {
        (Some(info_hash), Some(staging_dir)) => (info_hash, staging_dir),
        _ => return Err(
            review_error(
                ReviewReason::TorrentUnreadable,
                "job reached injection without an info-hash or staging directory",
            ),
        ),
    };
    let torrent_file = match stored {
        Ok(Some(bytes)) => bytes,
        Ok(None) => return Err(
            review_error(ReviewReason::TorrentUnreadable, "the stored .torrent is missing"),
        ),
        Err(error) => return Err(StepOutcome::retry(error.message())),
    };
    Ok(
        AddTorrent {
            info_hash,
            torrent_file,
            save_path: staging_dir.join_onto(staging_root),
            category: category.clone(),
        },
    )
}

/// What adding a torrent comes to.
pub open spec fn injection_judged(
    request: AddTorrent,
    added: Result<(), ClientError>,
    outcome: StepOutcome,
) -> bool {
    match added {
        Ok(()) => outcome.advances(
            Some(
                crate::json::fact("save_path"@, Doc::Text(request.save_path@)).with(
                    "info_hash"@,
                    Doc::Text(crate::torrent::domain::hex(request.info_hash@)),
                ),
            ),
            crate::repair::ports::no_changes(),
        ),
        Err(error) => client_failed(error, outcome),
    }
}

/// Judge what adding the torrent came to.
///
/// Adding an already-present torrent is a no-op for the client, so a replay
/// after a crash succeeds too.
pub fn inject(request: &AddTorrent, added: Result<(), ClientError>) -> (r: StepOutcome)
    ensures
        injection_judged(*request, added, r),
{
    match added {
        Ok(()) => StepOutcome::advance_with(
            Json::fact("save_path", Json::text(request.save_path.as_str())).with(
                "info_hash",
                Json::Text(request.info_hash.to_hex()),
            ),
            JobPatch::default(),
        ),
        Err(error) => client_failure(&error),
    }
}

/// Which torrent to have checked, or why none can be.
pub fn recheck_target(job: &RepairJob) -> (r: Result<InfoHash, StepOutcome>)
    ensures
        match r {
            Ok(info_hash) => job.info_hash == Some(info_hash),
            Err(outcome) => job.info_hash is None && hash_missing(
                outcome,
                "job reached rechecking without an info-hash"@,
            ),
        },
{
    match job.info_hash {
        Some(info_hash) => Ok(info_hash),
        None => Err(
            review_error(
                ReviewReason::TorrentUnreadable,
                "job reached rechecking without an info-hash",
            ),
        ),
    }
}

/// The hash check can be asked for, or why it cannot.
pub open spec fn recheck_allowed(
    status: Result<Option<TorrentStatus>, ClientError>,
    r: Result<(), StepOutcome>,
) -> bool {
    match status {
        Ok(Some(_)) => r is Ok,
        Ok(None) => r matches Err(outcome) && outcome.rewinds(
            RepairState::Staged,
            "the download client no longer has this torrent"@,
        ),
        Err(error) => r matches Err(outcome) && client_failed(error, outcome),
    }
}

/// Whether the client's answer lets the hash check be asked for: a torrent
/// removed since injection rewinds instead of failing repeatedly.
pub fn ready_to_recheck(status: &Result<Option<TorrentStatus>, ClientError>) -> (r: Result<
    (),
    StepOutcome,
>)
    ensures
        recheck_allowed(*status, r),
{
    match status {
        Ok(Some(_)) => Ok(()),
        Ok(None) => Err(
            StepOutcome::rewind(
                RepairState::Staged,
                "the download client no longer has this torrent",
            ),
        ),
        Err(error) => Err(client_failure(error)),
    }
}

/// What asking for a hash check comes to.
pub open spec fn recheck_begun(
    started: Result<(), ClientError>,
    now: Timestamp,
    outcome: StepOutcome,
) -> bool {
    match started {
        Ok(()) => outcome.advances(
            None,
            (Changes { rechecking_started_at: Some(now), ..crate::repair::ports::no_changes() }),
        ),
        Err(error) => client_failed(error, outcome),
    }
}

/// Judge what asking for the hash check came to. The moment is kept: the poll
/// backoff and the recheck ceiling count from it.
pub fn start_recheck(started: Result<(), ClientError>, now: Timestamp) -> (r: StepOutcome)
    ensures
        recheck_begun(started, now, r),
{
    match started {
        Ok(()) => {
            let mut patch = JobPatch::default();
            patch.rechecking_started_at = Some(now);
            StepOutcome::Advance { detail: None, patch }
        },
        Err(error) => client_failure(&error),
    }
}

/// A client that failed is asked again, unless its adapter is a stub: asking that
/// again does not help, and the job is parked.
pub proof fn a_failing_client_is_asked_again_unless_it_is_a_stub(
    error: ClientError,
    outcome: StepOutcome,
)
    requires
        client_failed(error, outcome),
    ensures
        error is NotImplemented <==> (outcome matches StepOutcome::Review { reason, .. } && reason
            == ReviewReason::AdapterNotImplemented),
        error !is NotImplemented <==> outcome is Retry,
{
}

/// A job with an info-hash, a staging directory and a stored torrent is handed
/// to the client with exactly those, below the staging root and in the category
/// that is configured. Lacking any of the first three, it is parked; only a
/// store that cannot be read is asked again.
pub proof fn what_is_handed_to_the_client_is_the_jobs_own(
    job: RepairJob,
    stored: Result<Option<Vec<u8>>, StoreError>,
    staging_root: Seq<char>,
    category: Option<String>,
    r: Result<AddTorrent, StepOutcome>,
)
    requires
        injection_prepared(job, stored, staging_root, category, r),
    ensures
        r is Ok <==> job.info_hash is Some && job.staging_dir is Some && (stored matches Ok(
            bytes,
        ) && bytes is Some),
        r matches Ok(request) ==> {
            &&& request.info_hash == job.info_hash->0
            &&& request.torrent_file@ == stored->Ok_0->0@
            &&& request.category == category
            &&& request.save_path@ == crate::torrent::path::below(
                staging_root,
                job.staging_dir->0@,
            )
        },
        r matches Err(outcome) ==> if job.info_hash is Some && job.staging_dir is Some && stored is Err {
            outcome is Retry
        } else {
            outcome matches StepOutcome::Review { reason, .. } && reason
                == ReviewReason::TorrentUnreadable
        },
{
}

/// A torrent that the client took is injected, and nothing else of the job
/// changes with that; one that it did not take is not.
pub proof fn only_an_added_torrent_is_injected(
    request: AddTorrent,
    added: Result<(), ClientError>,
    outcome: StepOutcome,
)
    requires
        injection_judged(request, added, outcome),
    ensures
        outcome is Advance <==> added is Ok,
        outcome matches StepOutcome::Advance { patch, .. } ==> patch.info_hash is None
            && patch.staging_dir is None && patch.files is None && patch.materialization is None
            && patch.rechecking_started_at is None && patch.resume_approved is None,
        added matches Err(error) ==> if error is NotImplemented {
            outcome matches StepOutcome::Review { reason, .. } && reason
                == ReviewReason::AdapterNotImplemented
        } else {
            outcome matches StepOutcome::Retry { .. }
        },
{
}

/// A hash check is asked for exactly where the client says that it has the
/// torrent; one that it does not have is added again from the staged files, and
/// nobody is asked.
pub proof fn a_check_needs_the_torrent_to_be_there(
    status: Result<Option<TorrentStatus>, ClientError>,
    r: Result<(), StepOutcome>,
)
    requires
        recheck_allowed(status, r),
    ensures
        r is Ok <==> (status matches Ok(answer) && answer is Some),
        (status matches Ok(answer) && answer is None) ==> (r matches Err(
            StepOutcome::Rewind { to, .. },
        ) && to == RepairState::Staged),
        status matches Err(error) ==> if error is NotImplemented {
            r matches Err(StepOutcome::Review { reason, .. }) && reason
                == ReviewReason::AdapterNotImplemented
        } else {
            r matches Err(StepOutcome::Retry { .. })
        },
{
}

/// A check that was begun is dated at that moment, and only that is learned; one
/// that was not begun leaves the job where it is.
pub proof fn a_begun_check_is_dated(
    started: Result<(), ClientError>,
    now: Timestamp,
    outcome: StepOutcome,
)
    requires
        recheck_begun(started, now, outcome),
    ensures
        outcome is Advance <==> started is Ok,
        outcome matches StepOutcome::Advance { patch, .. } ==> patch.rechecking_started_at == Some(
            now,
        ) && patch.files is None && patch.file_progress is None && patch.info_hash is None
            && patch.resume_approved is None,
        started matches Err(error) ==> if error is NotImplemented {
            outcome matches StepOutcome::Review { reason, .. } && reason
                == ReviewReason::AdapterNotImplemented
        } else {
            outcome matches StepOutcome::Retry { .. }
        },
{
}

} // verus!
