//! Database rows and the jobs they stand for.
//!
//! A row is what the database holds: text, integers and absent values. Reading
//! one checks everything it claims; a row that does not hold together is
//! reported as corrupt rather than guessed at.

use chrono::{DateTime, SecondsFormat};
use vstd::prelude::*;
use vstd::string::*;

use crate::clock::Timestamp;
use crate::json::Json;
use crate::library::{MatchConfidence, MatchEvidence};
use crate::repair::domain::{JobId, RepairJob, RepairState, ReviewReason, TransitionRecord};
use crate::repair::ports::{PlannedFile, StoreError};
use crate::staging::MaterializationStrategy;
use crate::text::same;
use crate::torrent::{InfoHash, SafeRelativePath};
use crate::tracker::{TrackerId, TrackerTorrentId};

verus! {

// ---------------------------------------------------------------------------
// Moments
// ---------------------------------------------------------------------------

/// The moment that an RFC 3339 text names: whole seconds since the start of
/// 1970, and nanoseconds. `None` for any other text.
pub uninterp spec fn rfc3339_parts(text: Seq<char>) -> Option<(int, int)>;

/// The RFC 3339 text, in UTC and to the microsecond, of a moment given by
/// whole seconds since the start of 1970 and nanoseconds.
pub uninterp spec fn rfc3339_text(secs: int, nanos: int) -> Seq<char>;

/// Calls `chrono::DateTime::parse_from_rfc3339`. The year has four digits and
/// the offset is less than a day, which bounds the seconds; a leap second is
/// kept as more than a second's worth of nanoseconds.
#[verifier::external_body]
fn read_rfc3339(text: &str) -> (r: Option<(i64, u32)>)
    ensures
        match r {
            Some((secs, nanos)) => {
                &&& rfc3339_parts(text@) == Some((secs as int, nanos as int))
                &&& -62_167_305_540 <= secs <= 253_402_387_139
                &&& nanos < 2_000_000_000
            },
            None => rfc3339_parts(text@) is None,
        },
{
    DateTime::parse_from_rfc3339(text).ok().map(|t| (t.timestamp(), t.timestamp_subsec_nanos()))
}

/// Calls `chrono::DateTime::to_rfc3339_opts` with microseconds and `Z`, on the
/// moment that `chrono::DateTime::from_timestamp` makes of the two numbers. A
/// moment of the years 0 to 9999 is written as a text that reads back as the
/// same moment, to the microsecond.
#[verifier::external_body]
fn write_rfc3339(secs: i64, nanos: u32) -> (r: String)
    requires
        -8_334_601_228_800 <= secs <= 8_210_266_876_799,
        nanos < 1_000_000_000,
    ensures
        r@ == rfc3339_text(secs as int, nanos as int),
        -62_167_219_200 <= secs <= 253_402_300_799 ==> rfc3339_parts(r@) == Some(
            (secs as int, nanos as int - nanos as int % 1000),
        ),
{
    DateTime::from_timestamp(secs, nanos).unwrap_or_default().to_rfc3339_opts(
        SecondsFormat::Micros,
        true,
    )
}

/// The moment that a text names, in nanoseconds since the start of 1970.
pub open spec fn moment_of(text: Seq<char>) -> Option<int> {
    match rfc3339_parts(text) {
        Some((secs, nanos)) => Some(secs * 1_000_000_000 + nanos),
        None => None,
    }
}

/// The text that a moment is stored as.
pub open spec fn moment_text(t: Timestamp) -> Seq<char> {
    rfc3339_text(t.unix_nanos as int / 1_000_000_000, t.unix_nanos as int % 1_000_000_000)
}

/// A moment of the years 0 to 9999, the ones whose text reads back.
pub open spec fn storable(t: Timestamp) -> bool {
    -62_167_219_200_000_000_000 <= t.unix_nanos < 253_402_300_800_000_000_000
}

/// The moment without what is less than a microsecond.
pub open spec fn to_the_microsecond(t: Timestamp) -> int {
    t.unix_nanos as int - t.unix_nanos as int % 1000
}

/// The moment that a text names.
pub fn parse_time(text: &str) -> (r: Option<Timestamp>)
    ensures
        match r {
            Some(t) => moment_of(text@) == Some(t.unix_nanos as int) && t.in_calendar(),
            None => moment_of(text@) is None,
        },
{
    match read_rfc3339(text) {
        Some((secs, nanos)) => Some(
            Timestamp { unix_nanos: secs as i128 * 1_000_000_000 + nanos as i128 },
        ),
        None => None,
    }
}

/// The text that a moment is stored as.
pub fn timestamp(t: Timestamp) -> (r: String)
    requires
        t.in_calendar(),
    ensures
        r@ == moment_text(t),
        storable(t) ==> moment_of(r@) == Some(to_the_microsecond(t)),
{
    let from_start: u128 = (t.unix_nanos - crate::clock::FIRST_MOMENT) as u128;
    let secs: i64 = (from_start / 1_000_000_000) as i64 - 8_334_601_228_800;
    let nanos: u32 = (from_start % 1_000_000_000) as u32;
    assert(secs == t.unix_nanos as int / 1_000_000_000);
    assert(nanos == t.unix_nanos as int % 1_000_000_000);
    write_rfc3339(secs, nanos)
}

// ---------------------------------------------------------------------------
// Numbers
// ---------------------------------------------------------------------------

/// The largest of the database's integers that is not larger.
pub open spec fn clipped(n: u64) -> i64 {
    if n <= i64::MAX {
        n as i64
    } else {
        i64::MAX
    }
}

/// The number, or zero for a negative one.
pub open spec fn unclipped(n: i64) -> u64 {
    if n >= 0 {
        n as u64
    } else {
        0
    }
}

/// A counter: `u32::MAX` for what does not fit one.
pub open spec fn counter(n: i64) -> u32 {
    if 0 <= n <= u32::MAX {
        n as u32
    } else {
        u32::MAX
    }
}

/// SQLite has no unsigned integers. Sizes never approach the limit, and
/// saturating is better than wrapping into a negative row.
pub fn as_i64(value: u64) -> (r: i64)
    ensures
        r == clipped(value),
{
    if value <= 0x7fff_ffff_ffff_ffff {
        value as i64
    } else {
        i64::MAX
    }
}

pub fn as_u64(value: i64) -> (r: u64)
    ensures
        r == unclipped(value),
{
    if value >= 0 {
        value as u64
    } else {
        0
    }
}

fn as_counter(value: i64) -> (r: u32)
    ensures
        r == counter(value),
{
    if 0 <= value && value <= 0xffff_ffff {
        value as u32
    } else {
        u32::MAX
    }
}

/// A size that fits the database comes back as it was.
pub proof fn sizes_round_trip(n: u64)
    requires
        n <= i64::MAX,
    ensures
        unclipped(clipped(n)) == n,
{
}

// ---------------------------------------------------------------------------
// Confidence
// ---------------------------------------------------------------------------

/// The name a confidence is stored under.
pub open spec fn confidence_name(confidence: MatchConfidence) -> Seq<char> {
    match confidence {
        MatchConfidence::Exact => "exact"@,
        MatchConfidence::Operator => "operator"@,
        MatchConfidence::Probable => "probable"@,
        MatchConfidence::Ambiguous => "ambiguous"@,
    }
}

pub fn confidence_str(confidence: MatchConfidence) -> (r: &'static str)
    ensures
        r@ == confidence_name(confidence),
{
    match confidence {
        MatchConfidence::Exact => "exact",
        MatchConfidence::Operator => "operator",
        MatchConfidence::Probable => "probable",
        MatchConfidence::Ambiguous => "ambiguous",
    }
}

/// No two confidences share a name.
pub proof fn confidence_names_are_distinct()
    ensures
        forall|a: MatchConfidence, b: MatchConfidence|
            #[trigger] confidence_name(a) == #[trigger] confidence_name(b) ==> a == b,
{
    reveal_strlit("exact");
    reveal_strlit("operator");
    reveal_strlit("probable");
    reveal_strlit("ambiguous");
    assert forall|a: MatchConfidence, b: MatchConfidence|
        #[trigger] confidence_name(a) == #[trigger] confidence_name(b) implies a == b by {
        assert(confidence_name(a).len() == confidence_name(b).len());
        assert(confidence_name(a)[0] == confidence_name(b)[0]);
    }
}

pub fn parse_confidence(raw: &str) -> (r: Option<MatchConfidence>)
    ensures
        match r {
            Some(confidence) => raw@ == confidence_name(confidence),
            None => forall|c: MatchConfidence| raw@ != #[trigger] confidence_name(c),
        },
        forall|c: MatchConfidence| raw@ == #[trigger] confidence_name(c) ==> r == Some(c),
{
    proof {
        confidence_names_are_distinct();
    }
    let r = if same(raw, "exact") {
        Some(MatchConfidence::Exact)
    } else if same(raw, "operator") {
        Some(MatchConfidence::Operator)
    } else if same(raw, "probable") {
        Some(MatchConfidence::Probable)
    } else if same(raw, "ambiguous") {
        Some(MatchConfidence::Ambiguous)
    } else {
        None
    };
    proof {
        if let Some(found) = r {
            assert(confidence_name(found) == raw@);
        }
    }
    r
}

// ---------------------------------------------------------------------------
// Jobs
// ---------------------------------------------------------------------------

/// A row of `repair_jobs`, without the `.torrent` and the lease.
#[derive(Debug, PartialEq, Eq)]
pub struct JobRow {
    pub id: i64,
    pub tracker_id: String,
    pub tracker_torrent_id: String,
    pub torrent_name: String,
    pub state: String,
    pub review_from_state: Option<String>,
    pub review_reason: Option<String>,
    pub failure_reason: Option<String>,
    pub info_hash: Option<String>,
    pub total_bytes: Option<i64>,
    pub staging_dir: Option<String>,
    pub materialization: Option<String>,
    pub rechecking_started_at: Option<String>,
    pub consecutive_unknown_tracker_status: i64,
    pub deadline: Option<String>,
    pub uploaded_bytes: Option<i64>,
    pub seeding_seconds: Option<i64>,
    pub resume_approved: i64,
    pub attempts: i64,
    pub next_attempt_at: Option<String>,
    pub created_at: String,
    pub updated_at: String,
}

/// The name is a state's.
pub open spec fn names_a_state(name: Seq<char>) -> bool {
    exists|state: RepairState| name == #[trigger] state.name()
}

/// The name is a strategy's.
pub open spec fn names_a_strategy(name: Seq<char>) -> bool {
    exists|strategy: MaterializationStrategy| name == #[trigger] strategy.name()
}

/// What is said of a text that should name a moment.
pub open spec fn not_a_moment(column: Seq<char>, raw: Seq<char>) -> Seq<char> {
    column + ": `"@ + raw + "` is not an RFC 3339 timestamp"@
}

/// Nothing, or the text of a moment.
pub open spec fn moment_or_none(raw: Option<String>) -> bool {
    match raw {
        Some(text) => moment_of(text@) is Some,
        None => true,
    }
}

/// Everything that the row claims can be read.
pub open spec fn row_holds(row: JobRow) -> bool {
    &&& row.staging_dir matches Some(dir) ==> crate::torrent::path::safe_path(dir@)
    &&& row.info_hash matches Some(hash) ==> crate::torrent::domain::is_hash(hash@)
    &&& row.materialization matches Some(name) ==> names_a_strategy(name@)
    &&& row.review_from_state matches Some(name) ==> names_a_state(name@)
    &&& moment_or_none(row.rechecking_started_at)
    &&& moment_or_none(row.deadline)
    &&& names_a_state(row.state@)
    &&& moment_or_none(row.next_attempt_at)
    &&& moment_of(row.created_at@) is Some
    &&& moment_of(row.updated_at@) is Some
}

/// `reason` tells the first thing that is wrong with the row.
pub open spec fn row_fault(row: JobRow, reason: Seq<char>) -> bool {
    if row.staging_dir matches Some(dir) && !crate::torrent::path::safe_path(dir@) {
        exists|why: crate::torrent::PathRejection|
            crate::torrent::path::path_rejected(row.staging_dir->0@, why) && reason
                == "staging_dir: "@ + #[trigger] why.sentence()
    } else if row.info_hash matches Some(hash) && !crate::torrent::domain::is_hash(hash@) {
        reason == "info_hash: "@ + crate::torrent::domain::hash_rejected(
            row.info_hash->0@,
        ).sentence()
    } else if row.materialization matches Some(name) && !names_a_strategy(name@) {
        reason == "unknown materialization strategy `"@ + row.materialization->0@ + "`"@
    } else if row.review_from_state matches Some(name) && !names_a_state(name@) {
        reason == "unknown repair state `"@ + row.review_from_state->0@ + "`"@
    } else if !moment_or_none(row.rechecking_started_at) {
        reason == not_a_moment("rechecking_started_at"@, row.rechecking_started_at->0@)
    } else if !moment_or_none(row.deadline) {
        reason == not_a_moment("deadline"@, row.deadline->0@)
    } else if !names_a_state(row.state@) {
        reason == "unknown repair state `"@ + row.state@ + "`"@
    } else if !moment_or_none(row.next_attempt_at) {
        reason == not_a_moment("next_attempt_at"@, row.next_attempt_at->0@)
    } else if moment_of(row.created_at@) is None {
        reason == not_a_moment("created_at"@, row.created_at@)
    } else if moment_of(row.updated_at@) is None {
        reason == not_a_moment("updated_at"@, row.updated_at@)
    } else {
        false
    }
}

/// The stored moment and the job's are the same.
pub open spec fn moment_read(raw: Option<String>, t: Option<Timestamp>) -> bool {
    match (raw, t) {
        (Some(text), Some(moment)) => moment_of(text@) == Some(moment.unix_nanos as int),
        (None, None) => true,
        _ => false,
    }
}

/// The stored size and the job's are the same.
pub open spec fn size_read(raw: Option<i64>, n: Option<u64>) -> bool {
    match (raw, n) {
        (Some(stored), Some(size)) => size == unclipped(stored),
        (None, None) => true,
        _ => false,
    }
}

/// The job is the one that the row stands for.
pub open spec fn row_means(row: JobRow, job: RepairJob) -> bool {
    &&& job.id.0 == row.id
    &&& job.tracker@ == row.tracker_id@
    &&& job.torrent_id@ == row.tracker_torrent_id@
    &&& job.torrent_name@ == row.torrent_name@
    &&& job.state.name() == row.state@
    &&& match (row.review_from_state, job.review_from_state) {
        (Some(name), Some(state)) => state.name() == name@,
        (None, None) => true,
        _ => false,
    }
    &&& match (row.review_reason, job.review_reason) {
        (Some(name), Some(reason)) => reason.name() == name@,
        (Some(name), None) => forall|reason: ReviewReason| name@ != #[trigger] reason.name(),
        (None, None) => true,
        _ => false,
    }
    &&& match (row.failure_reason, job.failure_reason) {
        (Some(a), Some(b)) => a@ == b@,
        (None, None) => true,
        _ => false,
    }
    &&& match (row.info_hash, job.info_hash) {
        (Some(text), Some(hash)) => hash@ == crate::torrent::domain::unhex(text@),
        (None, None) => true,
        _ => false,
    }
    &&& size_read(row.total_bytes, job.total_bytes)
    &&& match (row.staging_dir, job.staging_dir) {
        (Some(text), Some(dir)) => dir@ == text@,
        (None, None) => true,
        _ => false,
    }
    &&& match (row.materialization, job.materialization) {
        (Some(name), Some(strategy)) => strategy.name() == name@,
        (None, None) => true,
        _ => false,
    }
    &&& moment_read(row.rechecking_started_at, job.rechecking_started_at)
    &&& moment_read(row.deadline, job.deadline)
    &&& size_read(row.uploaded_bytes, job.uploaded_bytes)
    &&& size_read(row.seeding_seconds, job.seeding_seconds)
    &&& job.resume_approved == (row.resume_approved != 0)
    &&& job.consecutive_unknown_tracker_status == counter(row.consecutive_unknown_tracker_status)
    &&& job.attempts == counter(row.attempts)
    &&& moment_read(row.next_attempt_at, job.next_attempt_at)
    &&& moment_of(row.created_at@) == Some(job.created_at.unix_nanos as int)
    &&& moment_of(row.updated_at@) == Some(job.updated_at.unix_nanos as int)
}

fn corrupt(id: JobId, reason: String) -> (r: StoreError)
    ensures
        r == (StoreError::Corrupt { id, reason }),
{
    StoreError::Corrupt { id, reason }
}

fn bad_moment(id: JobId, column: &str, raw: &str) -> (r: StoreError)
    ensures
        r matches StoreError::Corrupt { id: i, reason } && i == id && reason@ == not_a_moment(
            column@,
            raw@,
        ),
{
    let mut reason = column.to_owned();
    reason.append(": `");
    reason.append(raw);
    reason.append("` is not an RFC 3339 timestamp");
    StoreError::Corrupt { id, reason }
}

/// A moment that must be there.
pub fn read_time(id: JobId, column: &str, raw: &str) -> (r: Result<Timestamp, StoreError>)
    ensures
        match r {
            Ok(t) => moment_of(raw@) == Some(t.unix_nanos as int) && t.in_calendar(),
            Err(error) => moment_of(raw@) is None && (error matches StoreError::Corrupt {
                id: i,
                reason,
            } && i == id && reason@ == not_a_moment(column@, raw@)),
        },
{
    match parse_time(raw) {
        Some(t) => Ok(t),
        None => Err(bad_moment(id, column, raw)),
    }
}

/// A moment that may be absent.
pub fn read_optional_time(id: JobId, column: &str, raw: &Option<String>) -> (r: Result<
    Option<Timestamp>,
    StoreError,
>)
    ensures
        match r {
            Ok(t) => moment_or_none(*raw) && moment_read(*raw, t) && (t matches Some(moment)
                ==> moment.in_calendar()),
            Err(error) => !moment_or_none(*raw) && (error matches StoreError::Corrupt {
                id: i,
                reason,
            } && i == id && reason@ == not_a_moment(column@, raw->0@)),
        },
{
    match raw {
        None => Ok(None),
        Some(text) => match parse_time(text.as_str()) {
            Some(t) => Ok(Some(t)),
            None => Err(bad_moment(id, column, text.as_str())),
        },
    }
}

/// A state.
pub fn parse_state(id: JobId, raw: &str) -> (r: Result<RepairState, StoreError>)
    ensures
        match r {
            Ok(state) => raw@ == state.name() && names_a_state(raw@),
            Err(error) => !names_a_state(raw@) && (error matches StoreError::Corrupt {
                id: i,
                reason,
            } && i == id && reason@ == "unknown repair state `"@ + raw@ + "`"@),
        },
{
    match RepairState::parse(raw) {
        Ok(state) => Ok(state),
        Err(unknown) => Err(corrupt(id, unknown.message())),
    }
}

fn read_strategy(id: JobId, raw: &Option<String>) -> (r: Result<
    Option<MaterializationStrategy>,
    StoreError,
>)
    ensures
        match r {
            Ok(found) => match (*raw, found) {
                (Some(name), Some(strategy)) => strategy.name() == name@ && names_a_strategy(name@),
                (None, None) => true,
                _ => false,
            },
            Err(error) => *raw matches Some(name) && !names_a_strategy(name@) && (
            error matches StoreError::Corrupt { id: i, reason } && i == id && reason@
                == "unknown materialization strategy `"@ + name@ + "`"@),
        },
{
    match raw {
        None => Ok(None),
        Some(name) => match MaterializationStrategy::parse(name.as_str()) {
            Ok(strategy) => Ok(Some(strategy)),
            Err(why) => Err(corrupt(id, why)),
        },
    }
}

fn copy_text(raw: &Option<String>) -> (r: Option<String>)
    ensures
        r == *raw,
{
    match raw {
        Some(text) => Some(text.clone()),
        None => None,
    }
}

fn read_size(raw: Option<i64>) -> (r: Option<u64>)
    ensures
        size_read(raw, r),
{
    match raw {
        Some(n) => Some(as_u64(n)),
        None => None,
    }
}

/// Read a job out of its row.
pub fn read_job(row: &JobRow) -> (r: Result<RepairJob, StoreError>)
    ensures
        match r {
            Ok(job) => row_holds(*row) && row_means(*row, job),
            Err(error) => !row_holds(*row) && (error matches StoreError::Corrupt { id, reason }
                && id.0 == row.id && row_fault(*row, reason@)),
        },
{
    let id = JobId(row.id);

    let staging_dir = match &row.staging_dir {
        None => None,
        Some(raw) => match SafeRelativePath::parse(raw.as_str()) {
            Ok(dir) => Some(dir),
            Err(why) => {
                let mut reason = "staging_dir: ".to_owned();
                reason.append(why.message().as_str());
                assert(reason@ == "staging_dir: "@ + why.sentence());
                return Err(corrupt(id, reason));
            },
        },
    };

    let info_hash = match &row.info_hash {
        None => None,
        Some(raw) => match InfoHash::parse_hex(raw.as_str()) {
            Ok(hash) => Some(hash),
            Err(why) => {
                let mut reason = "info_hash: ".to_owned();
                reason.append(why.message().as_str());
                return Err(corrupt(id, reason));
            },
        },
    };

    let materialization = match read_strategy(id, &row.materialization) {
        Ok(found) => found,
        Err(error) => return Err(error),
    };

    let review_from_state = match &row.review_from_state {
        None => None,
        Some(raw) => match parse_state(id, raw.as_str()) {
            Ok(state) => Some(state),
            Err(error) => return Err(error),
        },
    };

    let rechecking_started_at = match read_optional_time(
        id,
        "rechecking_started_at",
        &row.rechecking_started_at,
    ) {
        Ok(t) => t,
        Err(error) => return Err(error),
    };
    let deadline = match read_optional_time(id, "deadline", &row.deadline) {
        Ok(t) => t,
        Err(error) => return Err(error),
    };
    let state = match parse_state(id, row.state.as_str()) {
        Ok(state) => state,
        Err(error) => return Err(error),
    };
    let next_attempt_at = match read_optional_time(id, "next_attempt_at", &row.next_attempt_at) {
        Ok(t) => t,
        Err(error) => return Err(error),
    };
    let created_at = match read_time(id, "created_at", row.created_at.as_str()) {
        Ok(t) => t,
        Err(error) => return Err(error),
    };
    let updated_at = match read_time(id, "updated_at", row.updated_at.as_str()) {
        Ok(t) => t,
        Err(error) => return Err(error),
    };

    Ok(
        RepairJob {
            id,
            tracker: TrackerId::new(row.tracker_id.as_str()),
            torrent_id: TrackerTorrentId::new(row.tracker_torrent_id.as_str()),
            torrent_name: row.torrent_name.clone(),
            state,
            review_from_state,
            review_reason: match &row.review_reason {
                Some(raw) => ReviewReason::parse(raw.as_str()),
                None => None,
            },
            failure_reason: copy_text(&row.failure_reason),
            info_hash,
            total_bytes: read_size(row.total_bytes),
            staging_dir,
            materialization,
            rechecking_started_at,
            deadline,
            uploaded_bytes: read_size(row.uploaded_bytes),
            seeding_seconds: read_size(row.seeding_seconds),
            resume_approved: row.resume_approved != 0,
            consecutive_unknown_tracker_status: as_counter(row.consecutive_unknown_tracker_status),
            attempts: as_counter(row.attempts),
            next_attempt_at,
            created_at,
            updated_at,
        },
    )
}

/// Every moment of the job lies in the calendar.
pub open spec fn job_in_calendar(job: RepairJob) -> bool {
    &&& job.rechecking_started_at matches Some(t) ==> t.in_calendar()
    &&& job.deadline matches Some(t) ==> t.in_calendar()
    &&& job.next_attempt_at matches Some(t) ==> t.in_calendar()
    &&& job.created_at.in_calendar()
    &&& job.updated_at.in_calendar()
}

/// The row is the one that the job is stored as.
pub open spec fn stored_as(job: RepairJob, row: JobRow) -> bool {
    &&& row.id == job.id.0
    &&& row.tracker_id@ == job.tracker@
    &&& row.tracker_torrent_id@ == job.torrent_id@
    &&& row.torrent_name@ == job.torrent_name@
    &&& row.state@ == job.state.name()
    &&& match (job.review_from_state, row.review_from_state) {
        (Some(state), Some(name)) => name@ == state.name(),
        (None, None) => true,
        _ => false,
    }
    &&& match (job.review_reason, row.review_reason) {
        (Some(reason), Some(name)) => name@ == reason.name(),
        (None, None) => true,
        _ => false,
    }
    &&& row.failure_reason == job.failure_reason
    &&& match (job.info_hash, row.info_hash) {
        (Some(hash), Some(text)) => text@ == crate::torrent::domain::hex(hash@),
        (None, None) => true,
        _ => false,
    }
    &&& size_written(job.total_bytes, row.total_bytes)
    &&& match (job.staging_dir, row.staging_dir) {
        (Some(dir), Some(text)) => text@ == dir@ && crate::torrent::path::safe_path(text@),
        (None, None) => true,
        _ => false,
    }
    &&& match (job.materialization, row.materialization) {
        (Some(strategy), Some(name)) => name@ == strategy.name(),
        (None, None) => true,
        _ => false,
    }
    &&& moment_written(job.rechecking_started_at, row.rechecking_started_at)
    &&& moment_written(job.deadline, row.deadline)
    &&& size_written(job.uploaded_bytes, row.uploaded_bytes)
    &&& size_written(job.seeding_seconds, row.seeding_seconds)
    &&& row.resume_approved == if job.resume_approved {
        1i64
    } else {
        0i64
    }
    &&& row.consecutive_unknown_tracker_status == job.consecutive_unknown_tracker_status
    &&& row.attempts == job.attempts
    &&& moment_written(job.next_attempt_at, row.next_attempt_at)
    &&& moment_written(Some(job.created_at), Some(row.created_at))
    &&& moment_written(Some(job.updated_at), Some(row.updated_at))
}

/// The text is the moment's; it reads back to the microsecond.
pub open spec fn moment_written(t: Option<Timestamp>, raw: Option<String>) -> bool {
    match (t, raw) {
        (Some(moment), Some(text)) => text@ == moment_text(moment) && (storable(moment)
            ==> moment_of(text@) == Some(to_the_microsecond(moment))),
        (None, None) => true,
        _ => false,
    }
}

/// The stored number is the size's.
pub open spec fn size_written(n: Option<u64>, raw: Option<i64>) -> bool {
    match (n, raw) {
        (Some(size), Some(stored)) => stored == clipped(size),
        (None, None) => true,
        _ => false,
    }
}

fn write_optional_time(t: Option<Timestamp>) -> (r: Option<String>)
    requires
        t matches Some(moment) ==> moment.in_calendar(),
    ensures
        moment_written(t, r),
{
    match t {
        Some(moment) => Some(timestamp(moment)),
        None => None,
    }
}

fn write_size(n: Option<u64>) -> (r: Option<i64>)
    ensures
        size_written(n, r),
{
    match n {
        Some(size) => Some(as_i64(size)),
        None => None,
    }
}

/// The row that a job is stored as.
pub fn write_job(job: &RepairJob) -> (row: JobRow)
    requires
        job_in_calendar(*job),
    ensures
        stored_as(*job, row),
{
    JobRow {
        id: job.id.0,
        tracker_id: job.tracker.as_str().to_owned(),
        tracker_torrent_id: job.torrent_id.as_str().to_owned(),
        torrent_name: job.torrent_name.clone(),
        state: job.state.as_str().to_owned(),
        review_from_state: match job.review_from_state {
            Some(state) => Some(state.as_str().to_owned()),
            None => None,
        },
        review_reason: match job.review_reason {
            Some(reason) => Some(reason.as_str().to_owned()),
            None => None,
        },
        failure_reason: copy_text(&job.failure_reason),
        info_hash: match job.info_hash {
            Some(hash) => Some(hash.to_hex()),
            None => None,
        },
        total_bytes: write_size(job.total_bytes),
        staging_dir: match &job.staging_dir {
            Some(dir) => Some(dir.as_str().to_owned()),
            None => None,
        },
        materialization: match job.materialization {
            Some(strategy) => Some(strategy.as_str().to_owned()),
            None => None,
        },
        rechecking_started_at: write_optional_time(job.rechecking_started_at),
        consecutive_unknown_tracker_status: job.consecutive_unknown_tracker_status as i64,
        deadline: write_optional_time(job.deadline),
        uploaded_bytes: write_size(job.uploaded_bytes),
        seeding_seconds: write_size(job.seeding_seconds),
        resume_approved: if job.resume_approved {
            1
        } else {
            0
        },
        attempts: job.attempts as i64,
        next_attempt_at: write_optional_time(job.next_attempt_at),
        created_at: timestamp(job.created_at),
        updated_at: timestamp(job.updated_at),
    }
}

// ---------------------------------------------------------------------------
// Reading back what was written
// ---------------------------------------------------------------------------

/// The moment is one that the database keeps exactly.
pub open spec fn kept_exactly(t: Timestamp) -> bool {
    storable(t) && t.unix_nanos as int % 1000 == 0
}

/// Everything of the job is something that the database keeps exactly: moments
/// of four-digit years to the microsecond, and sizes below its limit.
pub open spec fn job_kept_exactly(job: RepairJob) -> bool {
    &&& job.rechecking_started_at matches Some(t) ==> kept_exactly(t)
    &&& job.deadline matches Some(t) ==> kept_exactly(t)
    &&& job.next_attempt_at matches Some(t) ==> kept_exactly(t)
    &&& kept_exactly(job.created_at)
    &&& kept_exactly(job.updated_at)
    &&& job.total_bytes matches Some(n) ==> n <= i64::MAX
    &&& job.uploaded_bytes matches Some(n) ==> n <= i64::MAX
    &&& job.seeding_seconds matches Some(n) ==> n <= i64::MAX
}

/// Two jobs agree in everything.
pub open spec fn same_job(a: RepairJob, b: RepairJob) -> bool {
    &&& a.id == b.id
    &&& a.tracker@ == b.tracker@
    &&& a.torrent_id@ == b.torrent_id@
    &&& a.torrent_name@ == b.torrent_name@
    &&& a.state == b.state
    &&& a.review_from_state == b.review_from_state
    &&& a.review_reason == b.review_reason
    &&& match (a.failure_reason, b.failure_reason) {
        (Some(x), Some(y)) => x@ == y@,
        (None, None) => true,
        _ => false,
    }
    &&& match (a.info_hash, b.info_hash) {
        (Some(x), Some(y)) => x@ == y@,
        (None, None) => true,
        _ => false,
    }
    &&& a.total_bytes == b.total_bytes
    &&& match (a.staging_dir, b.staging_dir) {
        (Some(x), Some(y)) => x@ == y@,
        (None, None) => true,
        _ => false,
    }
    &&& a.materialization == b.materialization
    &&& a.rechecking_started_at == b.rechecking_started_at
    &&& a.deadline == b.deadline
    &&& a.uploaded_bytes == b.uploaded_bytes
    &&& a.seeding_seconds == b.seeding_seconds
    &&& a.resume_approved == b.resume_approved
    &&& a.consecutive_unknown_tracker_status == b.consecutive_unknown_tracker_status
    &&& a.attempts == b.attempts
    &&& a.next_attempt_at == b.next_attempt_at
    &&& a.created_at == b.created_at
    &&& a.updated_at == b.updated_at
}

/// What is written is always readable.
pub proof fn a_stored_job_is_readable(job: RepairJob, row: JobRow)
    requires
        job_kept_exactly(job),
        stored_as(job, row),
    ensures
        row_holds(row),
{
    if let Some(hash) = job.info_hash {
        crate::torrent::domain::hex_round_trip(hash@);
        assert(hash@.len() == 20);
    }
    if let Some(strategy) = job.materialization {
        assert(row.materialization->0@ == strategy.name());
    }
    if let Some(state) = job.review_from_state {
        assert(row.review_from_state->0@ == state.name());
    }
    assert(row.state@ == job.state.name());
}

/// Reading back what was written gives the job that was written.
pub proof fn a_read_gives_back_what_was_written(job: RepairJob, row: JobRow, back: RepairJob)
    requires
        job_kept_exactly(job),
        stored_as(job, row),
        row_means(row, back),
    ensures
        same_job(job, back),
{
    crate::repair::domain::state_names_are_distinct();
    crate::repair::domain::review_reason_names_are_distinct();
    crate::staging::domain::strategy_names_are_distinct();
    if let Some(hash) = job.info_hash {
        crate::torrent::domain::hex_round_trip(hash@);
    }
    if let Some(reason) = job.review_reason {
        assert(row.review_reason->0@ == reason.name());
    }
}

// ---------------------------------------------------------------------------
// Planned files and the audit trail
// ---------------------------------------------------------------------------

/// A row of `repair_job_files`. The evidence stands for its JSON text; absent
/// where there is none or it cannot be read.
#[derive(Debug, PartialEq, Eq)]
pub struct FileRow {
    pub torrent_path: String,
    pub length_bytes: i64,
    pub source_path: Option<String>,
    pub match_confidence: Option<String>,
    pub match_evidence: Option<MatchEvidence>,
    pub materialized_as: Option<String>,
    pub recheck_progress: Option<u64>,
}

/// What a stored planned file is read as.
pub open spec fn planned_file_read(
    id: JobId,
    row: FileRow,
    r: Result<PlannedFile, StoreError>,
) -> bool {
    &&& match r {
        Ok(file) => {
            &&& file.torrent_path@ == row.torrent_path@
            &&& file.length == unclipped(row.length_bytes)
            &&& file.source == row.source_path
            &&& match (row.match_confidence, file.confidence) {
                (Some(name), Some(c)) => name@ == confidence_name(c),
                (Some(name), None) => forall|c: MatchConfidence|
                    name@ != #[trigger] confidence_name(c),
                (None, None) => true,
                _ => false,
            }
            &&& file.evidence == row.match_evidence
            &&& match (row.materialized_as, file.materialized_as) {
                (Some(name), Some(strategy)) => strategy.name() == name@,
                (None, None) => true,
                _ => false,
            }
            &&& file.recheck_progress == row.recheck_progress
        },
        Err(error) => error matches StoreError::Corrupt { id: i, reason } && i == id && (
        if !crate::torrent::path::safe_path(row.torrent_path@) {
            exists|why: crate::torrent::PathRejection|
                crate::torrent::path::path_rejected(row.torrent_path@, why) && reason@
                    == "torrent_path: "@ + #[trigger] why.sentence()
        } else {
            row.materialized_as matches Some(name) && !names_a_strategy(name@) && reason@
                == "unknown materialization strategy `"@ + name@ + "`"@
        }),
    }
    &&& r is Ok <==> crate::torrent::path::safe_path(row.torrent_path@) && (
    row.materialized_as matches Some(name) ==> names_a_strategy(name@))
}

/// Read a planned file out of its row.
pub fn read_planned_file(id: JobId, row: &FileRow) -> (r: Result<PlannedFile, StoreError>)
    ensures
        planned_file_read(id, *row, r),
{
    let torrent_path = match SafeRelativePath::parse(row.torrent_path.as_str()) {
        Ok(path) => path,
        Err(why) => {
            let mut reason = "torrent_path: ".to_owned();
            reason.append(why.message().as_str());
            assert(reason@ == "torrent_path: "@ + why.sentence());
            return Err(corrupt(id, reason));
        },
    };
    let materialized_as = match read_strategy(id, &row.materialized_as) {
        Ok(found) => found,
        Err(error) => return Err(error),
    };
    Ok(
        PlannedFile {
            torrent_path,
            length: as_u64(row.length_bytes),
            source: copy_text(&row.source_path),
            confidence: match &row.match_confidence {
                Some(raw) => parse_confidence(raw.as_str()),
                None => None,
            },
            evidence: row.match_evidence,
            materialized_as,
            recheck_progress: row.recheck_progress,
        },
    )
}

/// A row of `repair_job_transitions`. The detail stands for its JSON text;
/// absent where there is none or it cannot be read.
#[derive(Debug, PartialEq, Eq)]
pub struct TransitionRow {
    pub from_state: String,
    pub to_state: String,
    pub reason: String,
    pub detail: Option<Json>,
    pub occurred_at: String,
}

/// What a stored line of the audit trail is read as.
pub open spec fn transition_read(
    id: JobId,
    row: TransitionRow,
    r: Result<TransitionRecord, StoreError>,
) -> bool {
    &&& match r {
        Ok(record) => {
            &&& record.from.name() == row.from_state@
            &&& record.to.name() == row.to_state@
            &&& record.reason@ == row.reason@
            &&& record.detail == row.detail
            &&& moment_of(row.occurred_at@) == Some(record.occurred_at.unix_nanos as int)
        },
        Err(error) => error matches StoreError::Corrupt { id: i, reason } && i == id && reason@
            == if !names_a_state(row.from_state@) {
            "unknown repair state `"@ + row.from_state@ + "`"@
        } else if !names_a_state(row.to_state@) {
            "unknown repair state `"@ + row.to_state@ + "`"@
        } else {
            not_a_moment("occurred_at"@, row.occurred_at@)
        },
    }
    &&& r is Ok <==> names_a_state(row.from_state@) && names_a_state(row.to_state@) && moment_of(
        row.occurred_at@,
    ) is Some
}

/// Read a line of the audit trail out of its row.
pub fn read_transition(id: JobId, row: TransitionRow) -> (r: Result<TransitionRecord, StoreError>)
    ensures
        transition_read(id, row, r),
{
    let from = match parse_state(id, row.from_state.as_str()) {
        Ok(state) => state,
        Err(error) => return Err(error),
    };
    let to = match parse_state(id, row.to_state.as_str()) {
        Ok(state) => state,
        Err(error) => return Err(error),
    };
    let occurred_at = match read_time(id, "occurred_at", row.occurred_at.as_str()) {
        Ok(t) => t,
        Err(error) => return Err(error),
    };
    Ok(TransitionRecord { from, to, reason: row.reason, detail: row.detail, occurred_at })
}

/// A stored planned file is read as it stands: with its path, its length, its
/// source, its strategy and how far it is. Only an unsafe path and an unknown
/// strategy keep it from being read, and an unknown confidence counts as none.
pub proof fn a_planned_file_is_read_as_it_stands(
    id: JobId,
    row: FileRow,
    r: Result<PlannedFile, StoreError>,
)
    requires
        planned_file_read(id, row, r),
    ensures
        r is Ok <==> crate::torrent::path::safe_path(row.torrent_path@) && (
        row.materialized_as matches Some(name) ==> name@ == "reflink"@ || name@ == "hardlink"@
            || name@ == "copy"@),
        r matches Ok(file) ==> {
            &&& file.torrent_path@ == row.torrent_path@
            &&& row.length_bytes >= 0 ==> file.length == row.length_bytes
            &&& file.source == row.source_path
            &&& file.evidence == row.match_evidence
            &&& file.recheck_progress == row.recheck_progress
            &&& file.materialized_as is Some <==> row.materialized_as is Some
            &&& file.materialized_as matches Some(strategy) ==> row.materialized_as->0@
                == match strategy {
                MaterializationStrategy::Reflink => "reflink"@,
                MaterializationStrategy::Hardlink => "hardlink"@,
                MaterializationStrategy::Copy => "copy"@,
            }
            &&& file.confidence matches Some(c) ==> row.match_confidence is Some
                && row.match_confidence->0@ == match c {
                MatchConfidence::Exact => "exact"@,
                MatchConfidence::Operator => "operator"@,
                MatchConfidence::Probable => "probable"@,
                MatchConfidence::Ambiguous => "ambiguous"@,
            }
        },
        r matches Err(error) ==> (error matches StoreError::Corrupt { id: of, .. } && of == id),
{
    if row.materialized_as matches Some(name) {
        let name = row.materialized_as->0@;
        if name == "reflink"@ {
            assert(name == MaterializationStrategy::Reflink.name());
        }
        if name == "hardlink"@ {
            assert(name == MaterializationStrategy::Hardlink.name());
        }
        if name == "copy"@ {
            assert(name == MaterializationStrategy::Copy.name());
        }
        if names_a_strategy(name) {
            let strategy = choose|strategy: MaterializationStrategy|
                name == #[trigger] strategy.name();
            assert(name == strategy.name());
        }
    }
}

/// A stored line of the audit trail is read as it stands, between two known states
/// and at its moment; anything else of it is corrupt.
pub proof fn an_audit_line_is_read_as_it_stands(
    id: JobId,
    row: TransitionRow,
    r: Result<TransitionRecord, StoreError>,
)
    requires
        transition_read(id, row, r),
    ensures
        r matches Ok(record) ==> {
            &&& record.from.name() == row.from_state@
            &&& record.to.name() == row.to_state@
            &&& record.reason@ == row.reason@
            &&& record.detail == row.detail
            &&& moment_of(row.occurred_at@) == Some(record.occurred_at.unix_nanos as int)
        },
        r is Ok <==> (exists|from: RepairState, to: RepairState|
            row.from_state@ == #[trigger] from.name() && row.to_state@ == #[trigger] to.name())
            && moment_of(row.occurred_at@) is Some,
        r matches Err(error) ==> (error matches StoreError::Corrupt { id: of, .. } && of == id),
{
    if names_a_state(row.from_state@) && names_a_state(row.to_state@) {
        let from = choose|state: RepairState| row.from_state@ == #[trigger] state.name();
        let to = choose|state: RepairState| row.to_state@ == #[trigger] state.name();
        assert(row.from_state@ == from.name() && row.to_state@ == to.name());
    }
}

/// A size is stored as it is up to the largest number that the database holds, and
/// then as that; a negative number reads as none, and a count that does not fit as
/// the largest.
pub proof fn how_numbers_are_stored(n: u64, stored: i64)
    ensures
        n <= 9_223_372_036_854_775_807 ==> clipped(n) == n,
        n > 9_223_372_036_854_775_807 ==> clipped(n) == 9_223_372_036_854_775_807,
        stored >= 0 ==> unclipped(stored) == stored,
        stored < 0 ==> unclipped(stored) == 0,
        0 <= stored <= 4_294_967_295 ==> counter(stored) == stored,
        stored < 0 || stored > 4_294_967_295 ==> counter(stored) == 4_294_967_295,
{
}

/// A moment is stored to the microsecond: what is read back is no later, and less
/// than a microsecond earlier.
pub proof fn moments_are_stored_to_the_microsecond(t: Timestamp)
    ensures
        to_the_microsecond(t) <= t.unix_nanos < to_the_microsecond(t) + 1000,
        to_the_microsecond(t) % 1000 == 0,
{
}

} // verus!
