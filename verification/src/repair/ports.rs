//! What the repair store keeps, and what it answers.

use vstd::prelude::*;
use vstd::string::*;

use super::domain::{InvalidTransition, JobId, RepairState, ReviewReason};
use crate::clock::Timestamp;
use crate::json::Json;
use crate::library::{MatchConfidence, MatchEvidence};
use crate::staging::MaterializationStrategy;
use crate::torrent::{InfoHash, SafeRelativePath};
use crate::tracker::TrackerId;

verus! {

#[derive(Debug, PartialEq, Eq)]
pub enum StoreError {
    /// the repair job does not exist
    Missing(JobId),
    /// the repair job is in another state than expected
    Conflict { id: JobId, expected: RepairState, actual: RepairState },
    Invalid(InvalidTransition),
    /// the stored repair job cannot be read
    Corrupt { id: JobId, reason: String },
    /// database error
    Database(String),
}

impl StoreError {
    /// The sentence shown for it.
    pub open spec fn sentence(self) -> Seq<char> {
        match self {
            StoreError::Missing(id) => "repair job "@ + crate::text::signed_decimal(id.0 as int)
                + " does not exist"@,
            StoreError::Conflict { id, expected, actual } => "repair job "@
                + crate::text::signed_decimal(id.0 as int) + " is in state "@ + actual.name()
                + ", not "@ + expected.name(),
            StoreError::Invalid(error) => error.sentence(),
            StoreError::Corrupt { id, reason } => "stored repair job "@
                + crate::text::signed_decimal(id.0 as int) + " cannot be read: "@ + reason@,
            StoreError::Database(why) => "database error: "@ + why@,
        }
    }

    pub fn message(&self) -> (r: String)
        ensures
            r@ == self.sentence(),
    {
        match self {
            StoreError::Missing(id) => {
                let mut out = "repair job ".to_owned();
                out.append(id.to_text().as_str());
                out.append(" does not exist");
                out
            },
            StoreError::Conflict { id, expected, actual } => {
                let mut out = "repair job ".to_owned();
                out.append(id.to_text().as_str());
                out.append(" is in state ");
                out.append(actual.as_str());
                out.append(", not ");
                out.append(expected.as_str());
                out
            },
            StoreError::Invalid(error) => error.message(),
            StoreError::Corrupt { id, reason } => {
                let mut out = "stored repair job ".to_owned();
                out.append(id.to_text().as_str());
                out.append(" cannot be read: ");
                out.append(reason.as_str());
                out
            },
            StoreError::Database(why) => {
                let mut out = "database error: ".to_owned();
                out.append(why.as_str());
                out
            },
        }
    }
}

/// Outcome of applying a transition.
///
/// [`Applied::AlreadyInTargetState`] is the idempotency signal: the job was
/// already where we were trying to put it, so nothing changed and no second
/// audit row was written. A step that crashed after its side effect but before
/// its transition can safely be replayed.
#[derive(Clone, Copy, Debug, PartialEq, Eq, Structural)]
pub enum Applied {
    Applied,
    AlreadyInTargetState,
}

/// Result of recording a hit-and-run.
#[derive(Clone, Copy, Debug, PartialEq, Eq, Structural)]
pub struct Discovered {
    pub id: JobId,
    /// False when the warning was already known, the common case, since
    /// trackers keep showing a hit-and-run until it is cleared.
    pub created: bool,
}

/// How a job list is narrowed and ordered.
///
/// Every field is optional and they compose with AND; the default is the whole
/// table, newest activity first.
#[derive(Debug, PartialEq, Eq)]
pub struct JobFilter {
    pub states: Vec<RepairState>,
    pub review_reasons: Vec<ReviewReason>,
    pub trackers: Vec<TrackerId>,
    /// Case-insensitive substring of `torrent_name`, or, when it is exactly 40
    /// hex characters, an exact `info_hash` match. That one special case is
    /// there because it is the query an operator actually types when a recheck
    /// disagrees with the tracker.
    pub search: Option<String>,
    pub sort: JobSort,
    pub descending: bool,
    /// The last row of the previous page. Keyset, never an offset: the worker
    /// mutates this table between one page and the next, and an offset silently
    /// skips and duplicates rows across the boundary.
    pub after: Option<JobCursor>,
    pub limit: i64,
}

impl Default for JobFilter {
    fn default() -> (r: JobFilter)
        ensures
            r.states@.len() == 0,
            r.review_reasons@.len() == 0,
            r.trackers@.len() == 0,
            r.search is None,
            r.sort is UpdatedAt,
            r.descending,
            r.after is None,
            r.limit == 50,
    {
        JobFilter {
            states: Vec::new(),
            review_reasons: Vec::new(),
            trackers: Vec::new(),
            search: None,
            sort: JobSort::UpdatedAt,
            descending: true,
            after: None,
            limit: 50,
        }
    }
}

/// The columns a job list may be ordered by.
#[derive(Clone, Copy, Debug, Default, PartialEq, Eq, Structural)]
pub enum JobSort {
    #[default]
    UpdatedAt,
    CreatedAt,
}

/// Where a page of jobs resumes: the sort column's value, and the id that
/// breaks ties on it.
#[derive(Debug, PartialEq, Eq)]
pub struct JobCursor {
    /// The RFC 3339 text as stored, so lexical ordering matches chronological.
    pub sort_value: String,
    pub id: JobId,
}

/// How many jobs are in each state, and why the parked ones are parked.
#[derive(Debug, PartialEq, Eq)]
pub struct JobCounts {
    /// Only states that actually have jobs; a zero count is an absent entry.
    pub by_state: Vec<(RepairState, i64)>,
    /// Parked jobs only. `None` is a job parked before a reason was recorded.
    pub by_review_reason: Vec<(Option<ReviewReason>, i64)>,
    pub total: i64,
}

/// A file in the repair plan, as persisted.
#[derive(Debug, PartialEq, Eq)]
pub struct PlannedFile {
    pub torrent_path: SafeRelativePath,
    pub length: u64,
    pub source: Option<String>,
    pub confidence: Option<MatchConfidence>,
    pub evidence: Option<MatchEvidence>,
    pub materialized_as: Option<MaterializationStrategy>,
    /// How much of this file the most recent recheck confirmed, by the bits of
    /// its IEEE 754 double. `None` before any recheck has run, or when the
    /// client offered no per-file breakdown.
    pub recheck_progress: Option<u64>,
}

impl Clone for PlannedFile {
    fn clone(&self) -> (r: PlannedFile)
        ensures
            r == *self,
    {
        PlannedFile {
            torrent_path: self.torrent_path.clone(),
            length: self.length,
            source: match &self.source {
                Some(path) => Some(path.clone()),
                None => None,
            },
            confidence: self.confidence,
            evidence: self.evidence,
            materialized_as: self.materialized_as,
            recheck_progress: self.recheck_progress,
        }
    }
}

/// One file's completeness from a recheck, keyed by the path already in its
/// row. Unlike [`JobPatch::files`], applying this updates existing rows in
/// place rather than replacing the whole plan: a recheck knows nothing about
/// matching or materialization.
#[derive(Debug, PartialEq, Eq)]
pub struct FileCompleteness {
    pub torrent_path: SafeRelativePath,
    /// The fraction, by the bits of its IEEE 754 double.
    pub ratio_bits: u64,
}

/// Job fields a transition may set. Anything left `None` is untouched, so a
/// step only writes what it learned.
#[derive(Debug, PartialEq, Eq)]
pub struct JobPatch {
    pub info_hash: Option<InfoHash>,
    pub torrent_file: Option<Vec<u8>>,
    pub total_bytes: Option<u64>,
    pub staging_dir: Option<SafeRelativePath>,
    pub materialization: Option<MaterializationStrategy>,
    /// Set on the `injected → rechecking` transition.
    pub rechecking_started_at: Option<Timestamp>,
    /// Replaces the whole file plan when set.
    pub files: Option<Vec<PlannedFile>>,
    /// Updates `recheck_progress` on the named files' existing rows. Applied
    /// after `files`, so setting both in one patch replaces the plan and then
    /// records progress against the new rows.
    pub file_progress: Option<Vec<FileCompleteness>>,
    /// `Some(0)` is a real reset, not "leave alone": only `None` means that.
    pub consecutive_unknown_tracker_status: Option<u32>,
    pub uploaded_bytes: Option<u64>,
    pub seeding_seconds: Option<u64>,
    /// `Some(false)` is a real reset, not "leave alone": only `None` means
    /// that.
    pub resume_approved: Option<bool>,
}

/// What a patch sets.
pub struct Changes {
    pub info_hash: Option<InfoHash>,
    pub torrent_file: Option<Seq<u8>>,
    pub total_bytes: Option<u64>,
    pub staging_dir: Option<Seq<char>>,
    pub materialization: Option<MaterializationStrategy>,
    pub rechecking_started_at: Option<Timestamp>,
    pub files: Option<Seq<PlannedFile>>,
    pub file_progress: Option<Seq<FileCompleteness>>,
    pub consecutive_unknown_tracker_status: Option<u32>,
    pub uploaded_bytes: Option<u64>,
    pub seeding_seconds: Option<u64>,
    pub resume_approved: Option<bool>,
}

/// A patch that sets nothing.
pub open spec fn no_changes() -> Changes {
    Changes {
        info_hash: None,
        torrent_file: None,
        total_bytes: None,
        staging_dir: None,
        materialization: None,
        rechecking_started_at: None,
        files: None,
        file_progress: None,
        consecutive_unknown_tracker_status: None,
        uploaded_bytes: None,
        seeding_seconds: None,
        resume_approved: None,
    }
}

impl View for JobPatch {
    type V = Changes;

    open spec fn view(&self) -> Changes {
        Changes {
            info_hash: self.info_hash,
            torrent_file: match self.torrent_file {
                Some(bytes) => Some(bytes@),
                None => None,
            },
            total_bytes: self.total_bytes,
            staging_dir: match self.staging_dir {
                Some(dir) => Some(dir@),
                None => None,
            },
            materialization: self.materialization,
            rechecking_started_at: self.rechecking_started_at,
            files: match self.files {
                Some(files) => Some(files@),
                None => None,
            },
            file_progress: match self.file_progress {
                Some(progress) => Some(progress@),
                None => None,
            },
            consecutive_unknown_tracker_status: self.consecutive_unknown_tracker_status,
            uploaded_bytes: self.uploaded_bytes,
            seeding_seconds: self.seeding_seconds,
            resume_approved: self.resume_approved,
        }
    }
}

impl Default for JobPatch {
    fn default() -> (r: JobPatch)
        ensures
            r@ == no_changes(),
    {
        JobPatch {
            info_hash: None,
            torrent_file: None,
            total_bytes: None,
            staging_dir: None,
            materialization: None,
            rechecking_started_at: None,
            files: None,
            file_progress: None,
            consecutive_unknown_tracker_status: None,
            uploaded_bytes: None,
            seeding_seconds: None,
            resume_approved: None,
        }
    }
}

/// Everything written alongside a transition, in the same database transaction.
#[derive(Debug, PartialEq, Eq)]
pub struct TransitionUpdate {
    /// Evidence for the audit trail. This is what makes an automated decision
    /// explainable months later.
    pub detail: Option<Json>,
    pub failure_reason: Option<String>,
    pub patch: JobPatch,
}

impl Default for TransitionUpdate {
    fn default() -> (r: TransitionUpdate)
        ensures
            r.detail is None,
            r.failure_reason is None,
            r.patch@ == no_changes(),
    {
        TransitionUpdate { detail: None, failure_reason: None, patch: JobPatch::default() }
    }
}

impl TransitionUpdate {
    pub fn with_detail(detail: Json) -> (r: TransitionUpdate)
        ensures
            r.detail == Some(detail),
            r.failure_reason is None,
            r.patch@ == no_changes(),
    {
        TransitionUpdate { detail: Some(detail), failure_reason: None, patch: JobPatch::default() }
    }

    pub fn patch(self, patch: JobPatch) -> (r: TransitionUpdate)
        ensures
            r.detail == self.detail,
            r.failure_reason == self.failure_reason,
            r.patch == patch,
    {
        TransitionUpdate { detail: self.detail, failure_reason: self.failure_reason, patch }
    }

    pub fn failed_because(self, reason: &str) -> (r: TransitionUpdate)
        ensures
            r.detail == self.detail,
            r.failure_reason matches Some(why) && why@ == reason@,
            r.patch == self.patch,
    {
        TransitionUpdate {
            detail: self.detail,
            failure_reason: Some(reason.to_owned()),
            patch: self.patch,
        }
    }
}

} // verus!
