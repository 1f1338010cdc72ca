//! What happens to a stored job.
//!
//! The contract that matters is on [`StoredJob::apply`]: it compares and swaps
//! on the transition's `from` state, and the audit row is written together with
//! the state change. Everything else in the system is allowed to crash between
//! any two operations because of that one guarantee. The database runs each of
//! these as one transaction.

use vstd::prelude::*;
use vstd::string::*;

use super::domain::{JobId, RepairJob, RepairState, Transition, TransitionReason, TransitionRecord};
use super::ports::{
    Applied, Discovered, FileCompleteness, JobPatch, PlannedFile, StoreError, TransitionUpdate,
};
use crate::clock::{Duration, Timestamp};
use crate::json::{Doc, Json};
use crate::text::same;
use crate::tracker::HitAndRun;

verus! {

/// Everything that is kept about one repair.
#[derive(Debug, PartialEq, Eq)]
pub struct StoredJob {
    pub job: RepairJob,
    pub torrent_file: Option<Vec<u8>>,
    pub files: Vec<PlannedFile>,
    /// The audit trail, oldest first.
    pub history: Vec<TransitionRecord>,
    pub lease_owner: Option<String>,
    pub lease_expires_at: Option<Timestamp>,
}

/// The new value where there is one, else the old.
pub open spec fn or_kept<T>(new: Option<T>, kept: Option<T>) -> Option<T> {
    match new {
        Some(value) => Some(value),
        None => kept,
    }
}

/// The fields that a patch may set have the patch's value where it has one,
/// and the old value where it has none.
pub open spec fn fields_patched(before: RepairJob, patch: JobPatch, after: RepairJob) -> bool {
    &&& after.info_hash == or_kept(patch.info_hash, before.info_hash)
    &&& after.total_bytes == or_kept(patch.total_bytes, before.total_bytes)
    &&& after.staging_dir == or_kept(patch.staging_dir, before.staging_dir)
    &&& after.materialization == or_kept(patch.materialization, before.materialization)
    &&& after.rechecking_started_at == or_kept(
        patch.rechecking_started_at,
        before.rechecking_started_at,
    )
    &&& after.consecutive_unknown_tracker_status
        == match patch.consecutive_unknown_tracker_status {
        Some(n) => n,
        None => before.consecutive_unknown_tracker_status,
    }
    &&& after.uploaded_bytes == or_kept(patch.uploaded_bytes, before.uploaded_bytes)
    &&& after.seeding_seconds == or_kept(patch.seeding_seconds, before.seeding_seconds)
}

/// The fields that say what the job is never change.
pub open spec fn identity_kept(before: RepairJob, after: RepairJob) -> bool {
    &&& after.id == before.id
    &&& after.tracker == before.tracker
    &&& after.torrent_id == before.torrent_id
    &&& after.torrent_name == before.torrent_name
    &&& after.deadline == before.deadline
    &&& after.created_at == before.created_at
}

/// The job after a patch alone.
pub open spec fn fields_only(
    before: RepairJob,
    patch: JobPatch,
    now: Timestamp,
    after: RepairJob,
) -> bool {
    &&& identity_kept(before, after)
    &&& fields_patched(before, patch, after)
    &&& after.state == before.state
    &&& after.review_from_state == before.review_from_state
    &&& after.review_reason == before.review_reason
    &&& after.failure_reason == before.failure_reason
    &&& after.resume_approved == match patch.resume_approved {
        Some(approved) => approved,
        None => before.resume_approved,
    }
    &&& after.attempts == before.attempts
    &&& after.next_attempt_at == before.next_attempt_at
    &&& after.updated_at == now
}

/// The start of a hash check is on record only while one runs.
pub open spec fn check_ended(before: RepairJob, to: RepairState) -> RepairJob {
    RepairJob {
        rechecking_started_at: if to is Rechecking {
            before.rechecking_started_at
        } else {
            None
        },
        ..before
    }
}

/// The job after a transition that took place.
pub open spec fn job_moved(
    before: RepairJob,
    transition: Transition,
    update: TransitionUpdate,
    now: Timestamp,
    after: RepairJob,
) -> bool {
    let parking = transition.spec_to() is AwaitingReview;
    &&& identity_kept(before, after)
    &&& fields_patched(check_ended(before, transition.spec_to()), update.patch, after)
    &&& after.state == transition.spec_to()
    &&& after.review_from_state == if parking {
        Some(transition.spec_from())
    } else {
        None
    }
    &&& after.review_reason == match transition.spec_reason() {
        TransitionReason::Review(reason) => Some(reason),
        _ => None,
    }
    &&& after.failure_reason == update.failure_reason
    &&& after.resume_approved == match update.patch.resume_approved {
        Some(approved) => approved,
        None => !parking && before.resume_approved,
    }
    &&& after.attempts == 0
    &&& after.next_attempt_at is None
    &&& after.updated_at == now
}

/// The files with the progress of each entry recorded, one after the other.
pub open spec fn with_progress(files: Seq<PlannedFile>, entries: Seq<FileCompleteness>) -> Seq<
    PlannedFile,
>
    decreases entries.len(),
{
    if entries.len() == 0 {
        files
    } else {
        let entry = entries.last();
        with_progress(files, entries.drop_last()).map_values(
            |file: PlannedFile|
                if file.torrent_path@ == entry.torrent_path@ {
                    PlannedFile { recheck_progress: Some(entry.ratio_bits), ..file }
                } else {
                    file
                },
        )
    }
}

/// A file of a new plan: no recheck has told of it yet.
pub open spec fn unchecked(file: PlannedFile) -> PlannedFile {
    PlannedFile { recheck_progress: None, ..file }
}

/// The files after a patch: the new plan if there is one, which starts without
/// progress, then the progress.
pub open spec fn files_patched(files: Seq<PlannedFile>, patch: JobPatch) -> Seq<PlannedFile> {
    let plan = match patch.files {
        Some(new) => new@.map_values(|file: PlannedFile| unchecked(file)),
        None => files,
    };
    match patch.file_progress {
        Some(entries) => with_progress(plan, entries@),
        None => plan,
    }
}

/// The audit row of a transition.
pub open spec fn records(
    record: TransitionRecord,
    transition: Transition,
    detail: Option<Json>,
    now: Timestamp,
) -> bool {
    &&& record.from == transition.spec_from()
    &&& record.to == transition.spec_to()
    &&& record.reason@ == transition.spec_reason().name()
    &&& record.detail == detail
    &&& record.occurred_at == now
}

/// Replace the value where there is a new one.
fn put<T>(slot: &mut Option<T>, new: Option<T>)
    ensures
        *final(slot) == or_kept(new, *old(slot)),
{
    match new {
        Some(value) => {
            *slot = Some(value);
        },
        None => {},
    }
}

/// The files of a new plan.
fn start_plan(files: Vec<PlannedFile>) -> (r: Vec<PlannedFile>)
    ensures
        r@ == files@.map_values(|file: PlannedFile| unchecked(file)),
{
    let ghost all = files@;
    let mut plan = files;
    let mut i: usize = 0;
    while i < plan.len()
        invariant
            plan@.len() == all.len(),
            i <= all.len(),
            forall|k: int| 0 <= k < i ==> #[trigger] plan@[k] == unchecked(all[k]),
            forall|k: int| i <= k < all.len() ==> #[trigger] plan@[k] == all[k],
        decreases all.len() - i,
    {
        let mut file = plan[i].clone();
        file.recheck_progress = None;
        plan.set(i, file);
        i += 1;
    }
    assert(plan@ =~= all.map_values(|file: PlannedFile| unchecked(file)));
    plan
}

/// Record one entry's progress on the rows it names.
fn record_one(files: &mut Vec<PlannedFile>, entry: &FileCompleteness)
    ensures
        final(files)@ == old(files)@.map_values(
            |file: PlannedFile|
                if file.torrent_path@ == entry.torrent_path@ {
                    PlannedFile { recheck_progress: Some(entry.ratio_bits), ..file }
                } else {
                    file
                },
        ),
{
    let ghost all = files@;
    let ghost mark = |file: PlannedFile|
        if file.torrent_path@ == entry.torrent_path@ {
            PlannedFile { recheck_progress: Some(entry.ratio_bits), ..file }
        } else {
            file
        };
    let mut i: usize = 0;
    while i < files.len()
        invariant
            files@.len() == all.len(),
            i <= all.len(),
            mark == (|file: PlannedFile|
                if file.torrent_path@ == entry.torrent_path@ {
                    PlannedFile { recheck_progress: Some(entry.ratio_bits), ..file }
                } else {
                    file
                }),
            forall|k: int| 0 <= k < i ==> #[trigger] files@[k] == mark(all[k]),
            forall|k: int| i <= k < all.len() ==> #[trigger] files@[k] == all[k],
        decreases all.len() - i,
    {
        if files[i].torrent_path.is(&entry.torrent_path) {
            let mut file = files[i].clone();
            file.recheck_progress = Some(entry.ratio_bits);
            files.set(i, file);
        }
        i += 1;
    }
    assert(files@ =~= all.map_values(mark));
}

/// The longest span that a moment is moved by: `i64::MAX` milliseconds. A
/// longer one falls back to another.
pub const MAX_SPAN_NANOS: u128 = 9_223_372_036_854_775_807_000_000;

/// The span, or the fallback where it is too long.
pub open spec fn span_or(span: int, fallback: int) -> int {
    if span <= MAX_SPAN_NANOS {
        span
    } else {
        fallback
    }
}

/// The moment that much later; `fallback` later where the span is too long.
pub fn later(now: Timestamp, span: Duration, fallback: Duration) -> (r: Timestamp)
    requires
        now.in_calendar(),
        now.unix_nanos + span_or(span@, fallback@) <= crate::clock::LAST_MOMENT,
    ensures
        r.unix_nanos == now.unix_nanos + span_or(span@, fallback@),
        r.in_calendar(),
{
    if span.as_nanos() <= MAX_SPAN_NANOS {
        now.plus(span)
    } else {
        now.plus(fallback)
    }
}

/// What moving a stored job comes to: the compare-and-swap on the state that
/// the transition starts from.
pub open spec fn applied(
    before: StoredJob,
    transition: Transition,
    update: TransitionUpdate,
    now: Timestamp,
    r: Result<Applied, StoreError>,
    after: StoredJob,
) -> bool {
    if before.job.state == transition.spec_from() {
        &&& r == Ok::<Applied, StoreError>(Applied::Applied)
        &&& job_moved(before.job, transition, update, now, after.job)
        &&& after.torrent_file == or_kept(
            update.patch.torrent_file,
            before.torrent_file,
        )
        &&& after.files@ == files_patched(before.files@, update.patch)
        &&& after.history@.len() == before.history@.len() + 1
        &&& after.history@.drop_last() == before.history@
        &&& records(after.history@.last(), transition, update.detail, now)
        &&& after.lease_owner == before.lease_owner
        &&& after.lease_expires_at == before.lease_expires_at
    } else {
        &&& after == before
        &&& r == if before.job.state == transition.spec_to() {
            Ok(Applied::AlreadyInTargetState)
        } else {
            Err(
                StoreError::Conflict {
                    id: before.job.id,
                    expected: transition.spec_from(),
                    actual: before.job.state,
                },
            )
        }
    }
}

/// What is told of the observation that opens a repair.
pub open spec fn discovery_doc(warning: HitAndRun) -> Doc {
    crate::json::fact("tracker"@, Doc::Text(warning.tracker@)).with(
        "torrent_id"@,
        Doc::Text(warning.torrent_id@),
    ).with("size_bytes"@, Doc::Number(warning.size_bytes as int)).with(
        "deadline"@,
        match warning.deadline {
            Some(at) => Doc::Moment(at.unix_nanos as int),
            None => Doc::Null,
        },
    )
}

/// The job is the one that a warning opens.
pub open spec fn opened(job: RepairJob, id: JobId, warning: HitAndRun, now: Timestamp) -> bool {
    &&& job.id == id
    &&& job.tracker == warning.tracker
    &&& job.torrent_id == warning.torrent_id
    &&& job.torrent_name@ == warning.torrent_name@
    &&& job.state is Discovered
    &&& job.review_from_state is None
    &&& job.review_reason is None
    &&& job.failure_reason is None
    &&& job.info_hash == warning.info_hash
    &&& job.total_bytes == Some(warning.size_bytes)
    &&& job.staging_dir is None
    &&& job.materialization is None
    &&& job.rechecking_started_at is None
    &&& job.deadline == warning.deadline
    &&& job.uploaded_bytes is None
    &&& job.seeding_seconds is None
    &&& !job.resume_approved
    &&& job.consecutive_unknown_tracker_status == 0
    &&& job.attempts == 0
    &&& job.next_attempt_at is None
    &&& job.created_at == now
    &&& job.updated_at == now
}

/// The job is kept as a warning opens it: nothing is known of its files, nobody
/// holds it, and its audit trail begins with the observation.
pub open spec fn newly_stored(
    stored: StoredJob,
    id: JobId,
    warning: HitAndRun,
    now: Timestamp,
) -> bool {
    &&& opened(stored.job, id, warning, now)
    &&& stored.torrent_file is None
    &&& stored.files@.len() == 0
    &&& stored.lease_owner is None
    &&& stored.lease_expires_at is None
    &&& stored.history@.len() == 1
    &&& {
        let first = stored.history@[0];
        &&& first.from is Discovered
        &&& first.to is Discovered
        &&& first.reason@ == "discovered"@
        &&& first.detail matches Some(told) && told.doc() == discovery_doc(warning)
        &&& first.occurred_at == now
    }
}

impl StoredJob {
    /// Open a repair for a warning, and its audit trail with the observation
    /// that started it.
    pub fn discovered(id: JobId, warning: &HitAndRun, now: Timestamp) -> (r: StoredJob)
        ensures
            newly_stored(r, id, *warning, now),
    {
        let deadline = match warning.deadline {
            Some(at) => Json::Moment(at),
            None => Json::Null,
        };
        let detail = Json::fact("tracker", Json::text(warning.tracker.as_str())).with(
            "torrent_id",
            Json::text(warning.torrent_id.as_str()),
        ).with("size_bytes", Json::Unsigned(warning.size_bytes)).with("deadline", deadline);
        let mut history: Vec<TransitionRecord> = Vec::new();
        history.push(
            TransitionRecord {
                from: RepairState::Discovered,
                to: RepairState::Discovered,
                reason: "discovered".to_owned(),
                detail: Some(detail),
                occurred_at: now,
            },
        );
        let job = RepairJob {
            id,
            tracker: warning.tracker.clone(),
            torrent_id: warning.torrent_id.clone(),
            torrent_name: warning.torrent_name.clone(),
            state: RepairState::Discovered,
            review_from_state: None,
            review_reason: None,
            failure_reason: None,
            info_hash: warning.info_hash,
            total_bytes: Some(warning.size_bytes),
            staging_dir: None,
            materialization: None,
            rechecking_started_at: None,
            deadline: warning.deadline,
            uploaded_bytes: None,
            seeding_seconds: None,
            resume_approved: false,
            consecutive_unknown_tracker_status: 0,
            attempts: 0,
            next_attempt_at: None,
            created_at: now,
            updated_at: now,
        };
        StoredJob {
            job,
            torrent_file: None,
            files: Vec::new(),
            history,
            lease_owner: None,
            lease_expires_at: None,
        }
    }

    /// The job is about the same torrent as the warning.
    pub open spec fn is_about(self, warning: HitAndRun) -> bool {
        self.job.tracker@ == warning.tracker@ && self.job.torrent_id@ == warning.torrent_id@
    }

    /// Move the job, together with its audit record and any field updates.
    ///
    /// Compares and swaps on the transition's `from` state. A job that is
    /// already at `to` is a replayed step: not an error, and no second audit
    /// row.
    pub fn apply(&mut self, transition: Transition, update: TransitionUpdate, now: Timestamp) -> (r:
        Result<Applied, StoreError>)
        ensures
            applied(*old(self), transition, update, now, r, *final(self)),
    {
        let from = transition.from();
        let to = transition.to();
        let reason = transition.reason();
        if self.job.state != from {
            if self.job.state == to {
                return Ok(Applied::AlreadyInTargetState);
            }
            return Err(
                StoreError::Conflict { id: self.job.id, expected: from, actual: self.job.state },
            );
        }
        let parking: bool = to == RepairState::AwaitingReview;
        self.job.state = to;
        self.job.review_from_state = if parking {
            Some(from)
        } else {
            None
        };
        self.job.review_reason = match reason {
            TransitionReason::Review(why) => Some(why),
            _ => None,
        };
        self.job.failure_reason = update.failure_reason;
        // An approval is per parked episode: parking for review again clears
        // it, so a rewound job onto different data does not stay silently
        // approved.
        if parking {
            self.job.resume_approved = false;
        }
        if to != RepairState::Rechecking {
            self.job.rechecking_started_at = None;
        }
        self.job.attempts = 0;
        self.job.next_attempt_at = None;
        let detail = update.detail;
        self.apply_patch(update.patch, now);
        self.history.push(
            TransitionRecord {
                from,
                to,
                reason: reason.as_str().to_owned(),
                detail,
                occurred_at: now,
            },
        );
        assert(self.history@.drop_last() =~= old(self).history@);
        Ok(Applied::Applied)
    }

    /// Set what the patch sets, the plan of files included.
    fn apply_patch(&mut self, patch: JobPatch, now: Timestamp)
        ensures
            fields_only(old(self).job, patch, now, final(self).job),
            final(self).torrent_file == or_kept(patch.torrent_file, old(self).torrent_file),
            final(self).files@ == files_patched(old(self).files@, patch),
            final(self).history == old(self).history,
            final(self).lease_owner == old(self).lease_owner,
            final(self).lease_expires_at == old(self).lease_expires_at,
    {
        let mut rest = patch;
        let files = rest.files.take();
        let progress = rest.file_progress.take();
        self.update_job_fields(rest, now);
        match files {
            Some(new) => {
                self.files = start_plan(new);
            },
            None => {},
        }
        match progress {
            Some(entries) => {
                let ghost plan = self.files@;
                let ghost at_start = *self;
                let mut i: usize = 0;
                while i < entries.len()
                    invariant
                        i <= entries@.len(),
                        self.files@ == with_progress(plan, entries@.take(i as int)),
                        self.job == at_start.job,
                        self.torrent_file == at_start.torrent_file,
                        self.history == at_start.history,
                        self.lease_owner == at_start.lease_owner,
                        self.lease_expires_at == at_start.lease_expires_at,
                    decreases entries@.len() - i,
                {
                    proof {
                        assert(entries@.take(i + 1).drop_last() =~= entries@.take(i as int));
                        assert(entries@.take(i + 1).last() == entries@[i as int]);
                    }
                    record_one(&mut self.files, &entries[i]);
                    i += 1;
                }
                assert(entries@.take(i as int) =~= entries@);
            },
            None => {},
        }
    }

    /// Set the scalar fields that the patch sets. Anything left `None` is
    /// untouched.
    fn update_job_fields(&mut self, patch: JobPatch, now: Timestamp)
        ensures
            fields_only(old(self).job, patch, now, final(self).job),
            final(self).torrent_file == or_kept(patch.torrent_file, old(self).torrent_file),
            final(self).files == old(self).files,
            final(self).history == old(self).history,
            final(self).lease_owner == old(self).lease_owner,
            final(self).lease_expires_at == old(self).lease_expires_at,
    {
        put(&mut self.job.info_hash, patch.info_hash);
        put(&mut self.torrent_file, patch.torrent_file);
        put(&mut self.job.total_bytes, patch.total_bytes);
        put(&mut self.job.staging_dir, patch.staging_dir);
        put(&mut self.job.materialization, patch.materialization);
        put(&mut self.job.rechecking_started_at, patch.rechecking_started_at);
        put(&mut self.job.uploaded_bytes, patch.uploaded_bytes);
        put(&mut self.job.seeding_seconds, patch.seeding_seconds);
        self.job.consecutive_unknown_tracker_status = match patch.consecutive_unknown_tracker_status {
            Some(n) => n,
            None => self.job.consecutive_unknown_tracker_status,
        };
        self.job.resume_approved = match patch.resume_approved {
            Some(approved) => approved,
            None => self.job.resume_approved,
        };
        self.job.updated_at = now;
    }

    /// Persist field updates without moving state and without an audit row:
    /// telemetry that arrives while a step waits. Not a decision, so it does
    /// not belong in the audit trail. The plan of files is left alone.
    pub fn record_progress(&mut self, patch: JobPatch, now: Timestamp)
        ensures
            noted(*old(self), patch, now, *final(self)),
    {
        self.update_job_fields(patch, now);
    }

    /// Correct where a parked job will resume, writing an audit row with
    /// reason `reconciliation`. The job stays parked: this only stops an
    /// operator's retry from resuming somewhere reality no longer supports. A
    /// no-op if the job is not currently parked, or already resumes at `state`.
    pub fn set_review_resume_point(&mut self, state: RepairState, now: Timestamp) -> (r: Result<
        (),
        StoreError,
    >)
        ensures
            resume_point_set(*old(self), state, now, r, *final(self)),
    {
        if self.job.state != RepairState::AwaitingReview {
            // An operator's retry already got here first; there is nothing
            // parked left to correct.
            return Ok(());
        }
        let previous = match self.job.review_from_state {
            Some(previous) => previous,
            None => {
                return Err(
                    StoreError::Corrupt {
                        id: self.job.id,
                        reason: "awaiting_review job has no review_from_state".to_owned(),
                    },
                );
            },
        };
        if previous == state {
            return Ok(());
        }
        self.job.review_from_state = Some(state);
        self.job.updated_at = now;
        self.history.push(
            TransitionRecord {
                from: previous,
                to: state,
                reason: "reconciliation".to_owned(),
                detail: Some(
                    Json::fact(
                        "note",
                        Json::text("parked repair's resume point moved back to match reality"),
                    ),
                ),
                occurred_at: now,
            },
        );
        assert(self.history@.drop_last() =~= old(self).history@);
        Ok(())
    }

    /// Nobody holds the job, or the lease has run out.
    pub open spec fn lease_free(self, now: Timestamp) -> bool {
        match self.lease_expires_at {
            Some(t) => t.unix_nanos <= now.unix_nanos,
            None => true,
        }
    }

    /// The worker may take the job up: it has work to do on it, the job is not
    /// scheduled for later, and nobody holds it.
    pub open spec fn claimable(self, now: Timestamp) -> bool {
        &&& self.job.state.actionable()
        &&& self.job.next_attempt_at matches Some(t) ==> t.unix_nanos <= now.unix_nanos
        &&& self.lease_free(now)
    }

    /// Take the job up if it is due. A lease is the only thing stopping two
    /// workers from acting on one job, and its expiry is the only thing that
    /// recovers a job from a worker that died.
    pub fn claim(&mut self, owner: &str, lease: Duration, now: Timestamp) -> (r: bool)
        requires
            now.in_calendar(),
            now.unix_nanos + span_or(lease@, 0) <= crate::clock::LAST_MOMENT,
        ensures
            claimed(*old(self), owner@, lease@, now, r, *final(self)),
    {
        let due: bool = match self.job.next_attempt_at {
            Some(t) => t.unix_nanos <= now.unix_nanos,
            None => true,
        };
        let free: bool = match self.lease_expires_at {
            Some(t) => t.unix_nanos <= now.unix_nanos,
            None => true,
        };
        if !self.job.state.is_actionable() || !due || !free {
            return false;
        }
        self.lease_owner = Some(owner.to_owned());
        self.lease_expires_at = Some(later(now, lease, Duration::zero()));
        true
    }

    /// Give up the lease. `retry_at` schedules the next attempt;
    /// `count_attempt` distinguishes "this failed" from "not ready yet", so
    /// polling does not burn the retry budget.
    pub fn release(&mut self, retry_at: Option<Timestamp>, count_attempt: bool, now: Timestamp)
        ensures
            let_go(*old(self), retry_at, count_attempt, now, *final(self)),
    {
        self.lease_owner = None;
        self.lease_expires_at = None;
        self.job.next_attempt_at = retry_at;
        if count_attempt && self.job.attempts < u32::MAX {
            self.job.attempts = self.job.attempts + 1;
        }
        self.job.updated_at = now;
    }

    /// `owner` is the one recorded as holding the job.
    pub open spec fn held_by(self, owner: Seq<char>) -> bool {
        self.lease_owner matches Some(o) && o@ == owner
    }

    fn is_held_by(&self, owner: &str) -> (r: bool)
        ensures
            r == self.held_by(owner@),
    {
        match &self.lease_owner {
            Some(o) => same(o.as_str(), owner),
            None => false,
        }
    }

    /// Extend a held lease. Only takes effect while `owner` still holds it: a
    /// worker that lost its lease to expiry must not reacquire it by renewing.
    /// Returns whether the renewal actually applied.
    pub fn renew_lease(&mut self, owner: &str, lease: Duration, now: Timestamp) -> (r: bool)
        requires
            now.in_calendar(),
            now.unix_nanos + span_or(lease@, 0) <= crate::clock::LAST_MOMENT,
        ensures
            renewed(*old(self), owner@, lease@, now, r, *final(self)),
    {
        if !self.is_held_by(owner) || !self.has_active_lease(now) {
            return false;
        }
        self.lease_expires_at = Some(later(now, lease, Duration::zero()));
        true
    }

    /// Drop a lease that has run out, or that `owner` holds, which, at startup,
    /// means a lease this instance was holding when it died.
    pub fn clear_stale_lease(&mut self, owner: &str, now: Timestamp) -> (r: bool)
        ensures
            cleared(*old(self), owner@, now, r, *final(self)),
    {
        let stale: bool = match self.lease_expires_at {
            Some(t) => t.unix_nanos <= now.unix_nanos || self.is_held_by(owner),
            None => false,
        };
        if stale {
            self.lease_owner = None;
            self.lease_expires_at = None;
        }
        stale
    }

    /// Whether somebody holds the job right now.
    pub fn has_active_lease(&self, now: Timestamp) -> (r: bool)
        ensures
            r == !self.lease_free(now),
    {
        match self.lease_expires_at {
            Some(t) => t.unix_nanos > now.unix_nanos,
            None => false,
        }
    }
}

/// What taking a job up comes to.
pub open spec fn claimed(
    before: StoredJob,
    owner: Seq<char>,
    lease: int,
    now: Timestamp,
    r: bool,
    after: StoredJob,
) -> bool {
    &&& r == before.claimable(now)
    &&& !r ==> after == before
    &&& r ==> {
        &&& after.job == before.job
        &&& after.torrent_file == before.torrent_file
        &&& after.files == before.files
        &&& after.history == before.history
        &&& after.lease_owner matches Some(o) && o@ == owner
        &&& after.lease_expires_at matches Some(t) && t.unix_nanos == now.unix_nanos + span_or(
            lease,
            0,
        )
    }
}

/// What extending a lease comes to.
pub open spec fn renewed(
    before: StoredJob,
    owner: Seq<char>,
    lease: int,
    now: Timestamp,
    r: bool,
    after: StoredJob,
) -> bool {
    &&& r == (before.held_by(owner) && !before.lease_free(now))
    &&& !r ==> after == before
    &&& r ==> {
        &&& after.job == before.job
        &&& after.torrent_file == before.torrent_file
        &&& after.files == before.files
        &&& after.history == before.history
        &&& after.lease_owner == before.lease_owner
        &&& after.lease_expires_at matches Some(t) && t.unix_nanos == now.unix_nanos + span_or(
            lease,
            0,
        )
    }
}

/// What giving up a lease comes to.
pub open spec fn let_go(
    before: StoredJob,
    retry_at: Option<Timestamp>,
    count_attempt: bool,
    now: Timestamp,
    after: StoredJob,
) -> bool {
    &&& after.lease_owner is None
    &&& after.lease_expires_at is None
    &&& after.job == (RepairJob {
        next_attempt_at: retry_at,
        attempts: if count_attempt && before.job.attempts < u32::MAX {
            (before.job.attempts + 1) as u32
        } else {
            before.job.attempts
        },
        updated_at: now,
        ..before.job
    })
    &&& after.torrent_file == before.torrent_file
    &&& after.files == before.files
    &&& after.history == before.history
}

/// What dropping a stale lease comes to.
pub open spec fn cleared(
    before: StoredJob,
    owner: Seq<char>,
    now: Timestamp,
    r: bool,
    after: StoredJob,
) -> bool {
    &&& r == (before.lease_expires_at is Some && (before.lease_free(now) || before.held_by(owner)))
    &&& !r ==> after == before
    &&& r ==> {
        &&& after.lease_owner is None
        &&& after.lease_expires_at is None
        &&& after.job == before.job
        &&& after.torrent_file == before.torrent_file
        &&& after.files == before.files
        &&& after.history == before.history
    }
}

/// What noting progress comes to.
pub open spec fn noted(
    before: StoredJob,
    patch: JobPatch,
    now: Timestamp,
    after: StoredJob,
) -> bool {
    &&& fields_only(before.job, patch, now, after.job)
    &&& after.torrent_file == or_kept(patch.torrent_file, before.torrent_file)
    &&& after.files == before.files
    &&& after.history == before.history
    &&& after.lease_owner == before.lease_owner
    &&& after.lease_expires_at == before.lease_expires_at
}

/// What correcting a resume point comes to.
pub open spec fn resume_point_set(
    before: StoredJob,
    state: RepairState,
    now: Timestamp,
    r: Result<(), StoreError>,
    after: StoredJob,
) -> bool {
    if before.job.state is AwaitingReview && before.job.review_from_state is None {
        &&& after == before
        &&& r matches Err(StoreError::Corrupt { id, reason }) && id == before.job.id && reason@
            == "awaiting_review job has no review_from_state"@
    } else if before.job.state !is AwaitingReview || before.job.review_from_state == Some(state) {
        r is Ok && after == before
    } else {
        &&& r is Ok
        &&& after.job == (RepairJob {
            review_from_state: Some(state),
            updated_at: now,
            ..before.job
        })
        &&& after.history@.len() == before.history@.len() + 1
        &&& after.history@.drop_last() == before.history@
        &&& resume_point_recorded(
            after.history@.last(),
            before.job.review_from_state->0,
            state,
            now,
        )
        &&& after.torrent_file == before.torrent_file
        &&& after.files == before.files
        &&& after.lease_owner == before.lease_owner
        &&& after.lease_expires_at == before.lease_expires_at
    }
}

/// The audit row of a corrected resume point.
pub open spec fn resume_point_recorded(
    record: TransitionRecord,
    from: RepairState,
    to: RepairState,
    now: Timestamp,
) -> bool {
    &&& record.from == from
    &&& record.to == to
    &&& record.reason@ == "reconciliation"@
    &&& record.detail matches Some(detail) && detail.doc() == crate::json::fact(
        "note"@,
        Doc::Text("parked repair's resume point moved back to match reality"@),
    )
    &&& record.occurred_at == now
}

// ---------------------------------------------------------------------------
// Laws
// ---------------------------------------------------------------------------

/// A step can be replayed: applying the same transition to a job that it moved
/// before finds the job in its target state. No transition but one that leads
/// back to where it began could take place twice.
pub proof fn a_moved_job_is_in_its_target_state(
    before: RepairJob,
    transition: Transition,
    update: TransitionUpdate,
    now: Timestamp,
    after: RepairJob,
)
    requires
        job_moved(before, transition, update, now, after),
        transition.spec_from() != transition.spec_to(),
    ensures
        after.state == transition.spec_to(),
        after.state != transition.spec_from(),
{
}

/// A job has a resume point exactly while it is parked: every move sets or
/// clears it.
pub proof fn a_resume_point_comes_and_goes_with_parking(
    before: RepairJob,
    transition: Transition,
    update: TransitionUpdate,
    now: Timestamp,
    after: RepairJob,
)
    requires
        job_moved(before, transition, update, now, after),
    ensures
        after.review_from_state is Some <==> after.state is AwaitingReview,
{
}

/// A patch that sets nothing changes nothing but the time of the last change.
pub proof fn an_empty_patch_changes_nothing(
    before: RepairJob,
    patch: JobPatch,
    now: Timestamp,
    after: RepairJob,
)
    requires
        patch@ == super::ports::no_changes(),
        fields_only(before, patch, now, after),
    ensures
        after == (RepairJob { updated_at: now, ..before }),
{
    assert(patch@.staging_dir is None);
}

/// Parking a job withdraws an operator's approval, unless the step that parks
/// it says otherwise.
pub proof fn parking_withdraws_approval(
    before: RepairJob,
    transition: Transition,
    update: TransitionUpdate,
    now: Timestamp,
    after: RepairJob,
)
    requires
        job_moved(before, transition, update, now, after),
        transition.spec_to() is AwaitingReview,
        update.patch.resume_approved is None,
    ensures
        !after.resume_approved,
{
}

/// A step that is replayed after a crash changes nothing, and is no error.
pub proof fn a_replayed_step_changes_nothing(
    first: StoredJob,
    transition: Transition,
    update: TransitionUpdate,
    at: Timestamp,
    second: StoredJob,
    again: TransitionUpdate,
    later: Timestamp,
    r: Result<Applied, StoreError>,
    third: StoredJob,
)
    requires
        transition.spec_from() != transition.spec_to(),
        applied(
            first,
            transition,
            update,
            at,
            Ok::<Applied, StoreError>(Applied::Applied),
            second,
        ),
        applied(second, transition, again, later, r, third),
    ensures
        r == Ok::<Applied, StoreError>(Applied::AlreadyInTargetState),
        third == second,
{
}

/// A job never changes its state without an audit row that says so, and what
/// went before stays on record.
pub proof fn every_move_is_on_record(
    before: StoredJob,
    transition: Transition,
    update: TransitionUpdate,
    now: Timestamp,
    r: Result<Applied, StoreError>,
    after: StoredJob,
)
    requires
        applied(before, transition, update, now, r, after),
        after.job.state != before.job.state,
    ensures
        after.history@.len() == before.history@.len() + 1,
        after.history@.drop_last() == before.history@,
        after.history@.last().from == before.job.state,
        after.history@.last().to == after.job.state,
{
}

/// Of two workers that move a job from the same state to different ones, the
/// second is told of the conflict, and the first one's move stands.
pub proof fn the_first_of_two_moves_stands(
    start: StoredJob,
    one: Transition,
    one_update: TransitionUpdate,
    one_at: Timestamp,
    middle: StoredJob,
    two: Transition,
    two_update: TransitionUpdate,
    two_at: Timestamp,
    r: Result<Applied, StoreError>,
    end: StoredJob,
)
    requires
        one.spec_from() == two.spec_from(),
        one.spec_to() != two.spec_to(),
        one.spec_from() != one.spec_to(),
        applied(start, one, one_update, one_at, Ok::<Applied, StoreError>(Applied::Applied), middle),
        applied(middle, two, two_update, two_at, r, end),
    ensures
        r is Err,
        end == middle,
{
}

/// The start of a hash check is forgotten with every move that does not lead
/// to one.
pub proof fn only_a_running_check_has_a_start(
    before: RepairJob,
    transition: Transition,
    update: TransitionUpdate,
    now: Timestamp,
    after: RepairJob,
)
    requires
        job_moved(before, transition, update, now, after),
        update.patch.rechecking_started_at is None,
    ensures
        after.rechecking_started_at is Some ==> after.state is Rechecking,
{
}

/// While a lease runs, nobody takes the job up, whoever asks; once it has run
/// out, the job can be taken up again, and the old holder cannot extend it.
pub proof fn one_worker_at_a_time(held: StoredJob, until: Timestamp, now: Timestamp)
    requires
        held.lease_expires_at == Some(until),
    ensures
        now.unix_nanos < until.unix_nanos ==> !held.claimable(now),
        until.unix_nanos <= now.unix_nanos && held.job.state.actionable()
            && held.job.next_attempt_at is None ==> held.claimable(now),
        until.unix_nanos <= now.unix_nanos ==> held.lease_free(now),
{
}

/// Some job is about the same torrent as the warning.
pub open spec fn known(jobs: Seq<StoredJob>, warning: HitAndRun) -> bool {
    exists|i: int| 0 <= i < jobs.len() && (#[trigger] jobs[i]).is_about(warning)
}

/// No two jobs are about the same torrent of the same tracker.
pub open spec fn one_job_per_torrent(jobs: Seq<StoredJob>) -> bool {
    forall|i: int, j: int|
        0 <= i < jobs.len() && 0 <= j < jobs.len() && i != j ==> !(
        (#[trigger] jobs[i]).job.tracker@ == (#[trigger] jobs[j]).job.tracker@
            && jobs[i].job.torrent_id@ == jobs[j].job.torrent_id@)
}

/// What recording a warning comes to.
pub open spec fn discovery_recorded(
    jobs: Seq<StoredJob>,
    next_id: JobId,
    warning: HitAndRun,
    now: Timestamp,
    r: Discovered,
    after: Seq<StoredJob>,
) -> bool {
    &&& r.created == !known(jobs, warning)
    &&& known(after, warning)
    &&& if r.created {
        &&& r.id == next_id
        &&& after.len() == jobs.len() + 1
        &&& after.drop_last() == jobs
        &&& newly_stored(after.last(), next_id, warning, now)
    } else {
        &&& after == jobs
        &&& exists|i: int|
            0 <= i < jobs.len() && (#[trigger] jobs[i]).is_about(warning) && jobs[i].job.id == r.id
    }
}

/// Record a warning among the jobs. A torrent that is known already, by tracker
/// and torrent id, is found again, and nothing changes; any other opens a job
/// under the next id.
pub fn record_discovery(
    jobs: &mut Vec<StoredJob>,
    next_id: JobId,
    warning: &HitAndRun,
    now: Timestamp,
) -> (r: Discovered)
    ensures
        one_job_per_torrent(old(jobs)@) ==> one_job_per_torrent(final(jobs)@),
        discovery_recorded(old(jobs)@, next_id, *warning, now, r, final(jobs)@),
{
    let ghost before = jobs@;
    let mut i: usize = 0;
    while i < jobs.len()
        invariant
            i <= jobs@.len(),
            jobs@ == before,
            forall|k: int| 0 <= k < i ==> !(#[trigger] before[k]).is_about(*warning),
        decreases jobs@.len() - i,
    {
        if jobs[i].job.tracker.is(&warning.tracker) && same(
            jobs[i].job.torrent_id.as_str(),
            warning.torrent_id.as_str(),
        ) {
            assert(before[i as int].is_about(*warning));
            return Discovered { id: jobs[i].job.id, created: false };
        }
        i += 1;
    }
    jobs.push(StoredJob::discovered(next_id, warning, now));
    proof {
        assert(jobs@.drop_last() =~= before);
        assert(jobs@.last().is_about(*warning));
        if one_job_per_torrent(before) {
            assert forall|a: int, b: int|
                0 <= a < jobs@.len() && 0 <= b < jobs@.len() && a != b implies !(
            (#[trigger] jobs@[a]).job.tracker@ == (#[trigger] jobs@[b]).job.tracker@
                && jobs@[a].job.torrent_id@ == jobs@[b].job.torrent_id@) by {
                if a < before.len() && b < before.len() {
                    assert(jobs@[a] == before[a] && jobs@[b] == before[b]);
                } else if a < before.len() {
                    assert(!before[a].is_about(*warning));
                } else {
                    assert(!before[b].is_about(*warning));
                }
            }
        }
    }
    Discovered { id: next_id, created: true }
}

/// A job is taken up exactly when it stands where the worker has work, is not
/// scheduled for later, and is held by nobody or by somebody whose time is over.
pub proof fn when_a_job_is_taken_up(
    before: StoredJob,
    owner: Seq<char>,
    lease: int,
    now: Timestamp,
    r: bool,
    after: StoredJob,
)
    requires
        claimed(before, owner, lease, now, r, after),
    ensures
        r <==> {
            &&& before.job.state !is Completed
            &&& before.job.state !is Failed
            &&& before.job.state !is AwaitingReview
            &&& before.job.next_attempt_at matches Some(at) ==> at.unix_nanos <= now.unix_nanos
            &&& before.lease_expires_at matches Some(until) ==> until.unix_nanos <= now.unix_nanos
        },
        after.job == before.job,
        after.files == before.files,
        after.history == before.history,
        !r ==> after.lease_owner == before.lease_owner && after.lease_expires_at
            == before.lease_expires_at,
{
}

/// Whoever took a job up for some time holds it for exactly that time: until
/// then no other takes it up, the holder and nobody else extends it, and a
/// holder that starts over gets rid of it; from then on nobody extends it and
/// anybody gets rid of it.
pub proof fn a_lease_is_held_for_its_time(
    first: StoredJob,
    owner: Seq<char>,
    lease: int,
    at: Timestamp,
    second: StoredJob,
    other: Seq<char>,
    span: int,
    now: Timestamp,
    r: bool,
    third: StoredJob,
)
    requires
        claimed(first, owner, lease, at, true, second),
        0 <= lease <= 9_223_372_036_854_775_807_000_000,
        at.unix_nanos <= now.unix_nanos,
    ensures
        now.unix_nanos < at.unix_nanos + lease ==> {
            &&& claimed(second, other, span, now, r, third) ==> !r
            &&& renewed(second, other, span, now, r, third) ==> (r <==> other == owner)
            &&& cleared(second, other, now, r, third) ==> (r <==> other == owner)
        },
        at.unix_nanos + lease <= now.unix_nanos ==> {
            &&& claimed(second, other, span, now, r, third) ==> r
            &&& renewed(second, other, span, now, r, third) ==> !r
            &&& cleared(second, other, now, r, third) ==> r
        },
{
}

/// Extending a lease moves its end to that much after now, and leaves the holder
/// and the job alone.
pub proof fn a_renewed_lease_runs_from_now(
    before: StoredJob,
    owner: Seq<char>,
    lease: int,
    now: Timestamp,
    after: StoredJob,
)
    requires
        renewed(before, owner, lease, now, true, after),
        0 <= lease <= 9_223_372_036_854_775_807_000_000,
    ensures
        after.lease_expires_at matches Some(until) && until.unix_nanos == now.unix_nanos + lease,
        after.lease_owner matches Some(holder) && holder@ == owner,
        after.job == before.job,
        after.history == before.history,
        after.files == before.files,
{
}

/// A job that was let go is held by nobody and is due when it was said to be,
/// and not before; only a failure costs an attempt; nothing else of it changes.
pub proof fn a_job_that_is_let_go_comes_back_when_it_is_due(
    before: StoredJob,
    retry_at: Option<Timestamp>,
    count_attempt: bool,
    at: Timestamp,
    after: StoredJob,
    owner: Seq<char>,
    lease: int,
    now: Timestamp,
    r: bool,
    third: StoredJob,
)
    requires
        let_go(before, retry_at, count_attempt, at, after),
        claimed(after, owner, lease, now, r, third),
        before.job.attempts < u32::MAX,
    ensures
        r <==> {
            &&& before.job.state !is Completed
            &&& before.job.state !is Failed
            &&& before.job.state !is AwaitingReview
            &&& retry_at matches Some(due) ==> due.unix_nanos <= now.unix_nanos
        },
        after.job.attempts == before.job.attempts + if count_attempt {
            1int
        } else {
            0
        },
        after.job.state == before.job.state,
        after.job.review_from_state == before.job.review_from_state,
        after.job.info_hash == before.job.info_hash,
        after.history == before.history,
        after.files == before.files,
        after.torrent_file == before.torrent_file,
{
}

/// Noting progress moves no job, leaves no audit row and touches no planned file
/// and no lease: what the patch says is set, and what it does not say is kept.
pub proof fn noting_progress_is_no_move(
    before: StoredJob,
    patch: JobPatch,
    now: Timestamp,
    after: StoredJob,
)
    requires
        noted(before, patch, now, after),
    ensures
        after.job.state == before.job.state,
        after.job.attempts == before.job.attempts,
        after.job.next_attempt_at == before.job.next_attempt_at,
        after.job.review_reason == before.job.review_reason,
        after.history == before.history,
        after.files == before.files,
        after.lease_owner == before.lease_owner,
        patch.uploaded_bytes is Some ==> after.job.uploaded_bytes == patch.uploaded_bytes,
        patch.uploaded_bytes is None ==> after.job.uploaded_bytes == before.job.uploaded_bytes,
        patch.consecutive_unknown_tracker_status matches Some(n)
            ==> after.job.consecutive_unknown_tracker_status == n,
        patch.consecutive_unknown_tracker_status is None
            ==> after.job.consecutive_unknown_tracker_status
            == before.job.consecutive_unknown_tracker_status,
        patch.info_hash is None ==> after.job.info_hash == before.job.info_hash,
        patch.materialization is None ==> after.job.materialization == before.job.materialization,
{
}

/// A move that takes place puts the job where it leads, with the attempts
/// counted anew and nothing scheduled; the reason for review is on record exactly
/// where the move is one for review; and what a patch says is set, while what it
/// does not say is kept.
pub proof fn a_move_leaves_a_fresh_job(
    before: StoredJob,
    transition: Transition,
    update: TransitionUpdate,
    now: Timestamp,
    after: StoredJob,
)
    requires
        applied(before, transition, update, now, Ok(Applied::Applied), after),
    ensures
        before.job.state == transition.spec_from(),
        after.job.state == transition.spec_to(),
        after.job.attempts == 0,
        after.job.next_attempt_at is None,
        after.job.updated_at == now,
        after.job.created_at == before.job.created_at,
        after.job.id == before.job.id,
        after.job.tracker == before.job.tracker,
        after.job.torrent_id == before.job.torrent_id,
        transition.spec_reason() matches TransitionReason::Review(why) ==> after.job.review_reason
            == Some(why),
        transition.spec_reason() !is Review ==> after.job.review_reason is None,
        transition.spec_to() is AwaitingReview ==> after.job.review_from_state == Some(
            before.job.state,
        ),
        update.patch.info_hash is Some ==> after.job.info_hash == update.patch.info_hash,
        update.patch.info_hash is None ==> after.job.info_hash == before.job.info_hash,
        update.patch.staging_dir is Some ==> after.job.staging_dir == update.patch.staging_dir,
        update.patch.staging_dir is None ==> after.job.staging_dir == before.job.staging_dir,
        update.patch.materialization is Some ==> after.job.materialization
            == update.patch.materialization,
        update.patch.materialization is None ==> after.job.materialization
            == before.job.materialization,
        update.patch.torrent_file is Some ==> after.torrent_file == update.patch.torrent_file,
        update.patch.torrent_file is None ==> after.torrent_file == before.torrent_file,
        update.patch.total_bytes is Some ==> after.job.total_bytes == update.patch.total_bytes,
        update.patch.total_bytes is None ==> after.job.total_bytes == before.job.total_bytes,
        update.patch.resume_approved matches Some(approved) ==> after.job.resume_approved
            == approved,
        update.patch.resume_approved is None && transition.spec_to() !is AwaitingReview
            ==> after.job.resume_approved == before.job.resume_approved,
        update.patch.rechecking_started_at is Some ==> after.job.rechecking_started_at
            == update.patch.rechecking_started_at,
        after.history@.last().reason@ == transition.spec_reason().name(),
        after.history@.last().detail == update.detail,
        after.history@.last().occurred_at == now,
        after.lease_owner == before.lease_owner,
        after.lease_expires_at == before.lease_expires_at,
{
}

/// A move takes place only from the state it starts at. From the state it leads
/// to it has been made before, and from any other it is refused with both states
/// named; neither changes anything.
pub proof fn a_move_starts_where_it_says(
    before: StoredJob,
    transition: Transition,
    update: TransitionUpdate,
    now: Timestamp,
    r: Result<Applied, StoreError>,
    after: StoredJob,
)
    requires
        applied(before, transition, update, now, r, after),
        before.job.state != transition.spec_from(),
    ensures
        after == before,
        before.job.state == transition.spec_to() ==> r == Ok::<Applied, StoreError>(
            Applied::AlreadyInTargetState,
        ),
        before.job.state != transition.spec_to() ==> (r matches Err(
            StoreError::Conflict { id, expected, actual },
        ) && id == before.job.id && expected == transition.spec_from() && actual
            == before.job.state),
{
}

/// Progress changes nothing of a file but its progress, and nothing at all of a
/// file that no entry names.
pub proof fn progress_is_about_the_files_it_names(
    files: Seq<PlannedFile>,
    entries: Seq<FileCompleteness>,
    n: int,
)
    requires
        0 <= n < files.len(),
    ensures
        with_progress(files, entries).len() == files.len(),
        with_progress(files, entries)[n] == (PlannedFile {
            recheck_progress: with_progress(files, entries)[n].recheck_progress,
            ..files[n]
        }),
        (forall|k: int|
            0 <= k < entries.len() ==> (#[trigger] entries[k]).torrent_path@
                != files[n].torrent_path@) ==> with_progress(files, entries)[n] == files[n],
    decreases entries.len(),
{
    if entries.len() > 0 {
        let front = entries.drop_last();
        progress_is_about_the_files_it_names(files, front, n);
        if forall|k: int|
            0 <= k < entries.len() ==> (#[trigger] entries[k]).torrent_path@
                != files[n].torrent_path@ {
            assert(entries[entries.len() - 1].torrent_path@ != files[n].torrent_path@);
            assert forall|k: int| 0 <= k < front.len() implies (#[trigger] front[k]).torrent_path@
                != files[n].torrent_path@ by {
                assert(front[k] == entries[k]);
            }
        }
    }
}

/// Of the entries that name a file, the last one says how far it is.
pub proof fn the_last_word_on_a_file_counts(
    files: Seq<PlannedFile>,
    entries: Seq<FileCompleteness>,
    n: int,
    k: int,
)
    requires
        0 <= n < files.len(),
        0 <= k < entries.len(),
        entries[k].torrent_path@ == files[n].torrent_path@,
        forall|j: int|
            k < j < entries.len() ==> (#[trigger] entries[j]).torrent_path@
                != files[n].torrent_path@,
    ensures
        with_progress(files, entries)[n].recheck_progress == Some(entries[k].ratio_bits),
    decreases entries.len(),
{
    let front = entries.drop_last();
    let e = entries.len() - 1;
    progress_is_about_the_files_it_names(files, front, n);
    let was = with_progress(files, front)[n];
    assert(was.torrent_path == files[n].torrent_path);
    if k < e {
        assert(entries[e].torrent_path@ != files[n].torrent_path@);
        assert(front[k] == entries[k]);
        assert forall|j: int| k < j < front.len() implies (#[trigger] front[j]).torrent_path@
            != files[n].torrent_path@ by {
            assert(front[j] == entries[j]);
        }
        the_last_word_on_a_file_counts(files, front, n, k);
    }
}

/// A new plan replaces the old one whole, file by file and unchecked; without a
/// new plan and without progress the files stay as they are.
pub proof fn a_new_plan_replaces_the_old(files: Seq<PlannedFile>, patch: JobPatch)
    requires
        patch.file_progress is None,
    ensures
        patch.files is None ==> files_patched(files, patch) == files,
        patch.files matches Some(new) ==> files_patched(files, patch).len() == new@.len()
            && forall|i: int|
            0 <= i < new@.len() ==> {
                &&& (#[trigger] files_patched(files, patch)[i]).torrent_path == new@[i].torrent_path
                &&& files_patched(files, patch)[i].length == new@[i].length
                &&& files_patched(files, patch)[i].source == new@[i].source
                &&& files_patched(files, patch)[i].confidence == new@[i].confidence
                &&& files_patched(files, patch)[i].evidence == new@[i].evidence
                &&& files_patched(files, patch)[i].materialized_as == new@[i].materialized_as
                &&& files_patched(files, patch)[i].recheck_progress is None
            },
{
}

/// A parked job resumes where it was told to from then on, stays parked, and the
/// correction is on record; a job that is not parked, or would resume there
/// anyway, is left alone.
pub proof fn a_corrected_resume_point_stands(
    before: StoredJob,
    state: RepairState,
    now: Timestamp,
    r: Result<(), StoreError>,
    after: StoredJob,
)
    requires
        resume_point_set(before, state, now, r, after),
    ensures
        after.job.state == before.job.state,
        r is Err <==> before.job.state is AwaitingReview && before.job.review_from_state is None,
        before.job.state !is AwaitingReview ==> after == before,
        before.job.state is AwaitingReview && r is Ok ==> after.job.review_from_state == Some(
            state,
        ),
        before.job.state is AwaitingReview && r is Ok && before.job.review_from_state != Some(state)
            ==> {
            &&& after.history@.len() == before.history@.len() + 1
            &&& after.history@.last().from == before.job.review_from_state->0
            &&& after.history@.last().to == state
            &&& after.history@.last().reason@ == "reconciliation"@
            &&& after.job.review_reason == before.job.review_reason
            &&& after.job.attempts == before.job.attempts
        },
        after.files == before.files,
        after.lease_owner == before.lease_owner,
{
}

/// A warning opens a repair at the start of the lifecycle, about its own torrent
/// and with what the tracker told of it: its size, its info-hash if any, its
/// deadline. Nothing is planned, staged, approved or held yet.
pub proof fn a_new_repair_is_about_its_warning(
    stored: StoredJob,
    id: JobId,
    warning: HitAndRun,
    now: Timestamp,
)
    requires
        newly_stored(stored, id, warning, now),
    ensures
        stored.job.id == id,
        stored.job.state == RepairState::Discovered,
        stored.is_about(warning),
        stored.job.torrent_name@ == warning.torrent_name@,
        stored.job.info_hash == warning.info_hash,
        stored.job.total_bytes == Some(warning.size_bytes),
        stored.job.deadline == warning.deadline,
        stored.job.created_at == now,
        stored.job.staging_dir is None,
        stored.job.materialization is None,
        !stored.job.resume_approved,
        stored.job.attempts == 0,
        stored.job.next_attempt_at is None,
        stored.lease_owner is None,
        stored.files@.len() == 0,
        stored.history@.len() == 1,
        stored.history@[0].reason@ == "discovered"@,
        stored.history@[0].occurred_at == now,
        stored.claimable(now),
{
}

/// The same warning always finds the same repair, whatever else is told of the
/// torrent; a torrent of another tracker, or another torrent, is another.
pub proof fn a_repair_is_about_one_torrent_of_one_tracker(
    stored: StoredJob,
    a: HitAndRun,
    b: HitAndRun,
)
    requires
        stored.is_about(a),
    ensures
        stored.is_about(b) <==> a.tracker@ == b.tracker@ && a.torrent_id@ == b.torrent_id@,
{
}

/// A warning opens a repair exactly where no repair is about its torrent of its
/// tracker; otherwise nothing changes, and it is told which repair that is.
pub proof fn a_warning_opens_one_repair(
    jobs: Seq<StoredJob>,
    next_id: JobId,
    warning: HitAndRun,
    now: Timestamp,
    r: Discovered,
    after: Seq<StoredJob>,
)
    requires
        discovery_recorded(jobs, next_id, warning, now, r, after),
    ensures
        r.created <==> forall|i: int|
            0 <= i < jobs.len() ==> !((#[trigger] jobs[i]).job.tracker@ == warning.tracker@
                && jobs[i].job.torrent_id@ == warning.torrent_id@),
        !r.created ==> after == jobs && exists|i: int|
            0 <= i < jobs.len() && (#[trigger] jobs[i]).job.tracker@ == warning.tracker@
                && jobs[i].job.torrent_id@ == warning.torrent_id@ && jobs[i].job.id == r.id,
        r.created ==> {
            &&& r.id == next_id
            &&& after.len() == jobs.len() + 1
            &&& forall|i: int| 0 <= i < jobs.len() ==> #[trigger] after[i] == jobs[i]
            &&& after[jobs.len() as int].job.id == next_id
            &&& after[jobs.len() as int].job.state is Discovered
            &&& after[jobs.len() as int].job.tracker@ == warning.tracker@
            &&& after[jobs.len() as int].job.torrent_id@ == warning.torrent_id@
        },
{
    if r.created {
        assert forall|i: int| 0 <= i < jobs.len() implies !((#[trigger] jobs[i]).job.tracker@
            == warning.tracker@ && jobs[i].job.torrent_id@ == warning.torrent_id@) by {
            assert(!jobs[i].is_about(warning));
        }
        assert forall|i: int| 0 <= i < jobs.len() implies #[trigger] after[i] == jobs[i] by {
            assert(after.drop_last()[i] == after[i]);
        }
        a_new_repair_is_about_its_warning(after.last(), next_id, warning, now);
    } else {
        let i = choose|i: int|
            0 <= i < jobs.len() && (#[trigger] jobs[i]).is_about(warning) && jobs[i].job.id == r.id;
        assert(jobs[i].job.tracker@ == warning.tracker@);
    }
}

/// The same warning again opens nothing, whatever else is told of the torrent by
/// then.
pub proof fn a_repeated_warning_opens_nothing(
    jobs: Seq<StoredJob>,
    first_id: JobId,
    first: HitAndRun,
    at: Timestamp,
    one: Discovered,
    between: Seq<StoredJob>,
    second_id: JobId,
    second: HitAndRun,
    now: Timestamp,
    two: Discovered,
    after: Seq<StoredJob>,
)
    requires
        discovery_recorded(jobs, first_id, first, at, one, between),
        discovery_recorded(between, second_id, second, now, two, after),
        first.tracker@ == second.tracker@,
        first.torrent_id@ == second.torrent_id@,
    ensures
        !two.created,
        after == between,
{
    assert(known(between, first));
    let i = choose|i: int| 0 <= i < between.len() && (#[trigger] between[i]).is_about(first);
    a_repair_is_about_one_torrent_of_one_tracker(between[i], first, second);
    assert(between[i].is_about(second));
}

} // verus!
