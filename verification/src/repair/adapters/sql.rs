//! The SQL that the job store runs, and what is bound to it.
//!
//! Every statement is a literal put together from a few shared pieces, so that
//! a filter can never mean one thing to a page and another to its count.

use vstd::prelude::*;
use vstd::string::*;

use crate::repair::domain::{RepairState, ReviewReason};
use crate::repair::ports::{JobCounts, JobFilter, JobSort};
use crate::sorting::sort_by_key;
use crate::text::{chars_of, lower_string, push_text, trim};
use crate::tracker::TrackerId;

verus! {

// ---------------------------------------------------------------------------
// Shared pieces
// ---------------------------------------------------------------------------

/// The columns of a job. Listing them instead of `SELECT *` keeps the
/// `.torrent` blob out of every list query.
pub open spec fn columns() -> Seq<char> {
    "id, tracker_id, tracker_torrent_id, torrent_name, state, review_from_state, review_reason, failure_reason, info_hash, total_bytes, staging_dir, materialization, rechecking_started_at, consecutive_unknown_tracker_status, deadline, uploaded_bytes, seeding_seconds, resume_approved, attempts, next_attempt_at, created_at, updated_at"@
}

pub fn job_columns() -> (r: &'static str)
    ensures
        r@ == columns(),
{
    "id, tracker_id, tracker_torrent_id, torrent_name, state, review_from_state, review_reason, failure_reason, info_hash, total_bytes, staging_dir, materialization, rechecking_started_at, consecutive_unknown_tracker_status, deadline, uploaded_bytes, seeding_seconds, resume_approved, attempts, next_attempt_at, created_at, updated_at"
}

/// The tables. A torrent of a tracker has one job at most: that is what makes
/// rediscovery a no-op.
pub const SCHEMA: &'static str = "CREATE TABLE IF NOT EXISTS repair_jobs (id INTEGER PRIMARY KEY, tracker_id TEXT NOT NULL, tracker_torrent_id TEXT NOT NULL, torrent_name TEXT NOT NULL, state TEXT NOT NULL, review_from_state TEXT, review_reason TEXT, failure_reason TEXT, info_hash TEXT, torrent_file BLOB, total_bytes INTEGER, staging_dir TEXT, materialization TEXT, rechecking_started_at TEXT, consecutive_unknown_tracker_status INTEGER NOT NULL DEFAULT 0, deadline TEXT, uploaded_bytes INTEGER, seeding_seconds INTEGER, resume_approved INTEGER NOT NULL DEFAULT 0, attempts INTEGER NOT NULL DEFAULT 0, next_attempt_at TEXT, lease_owner TEXT, lease_expires_at TEXT, created_at TEXT NOT NULL, updated_at TEXT NOT NULL, UNIQUE (tracker_id, tracker_torrent_id)); CREATE TABLE IF NOT EXISTS repair_job_files (job_id INTEGER NOT NULL REFERENCES repair_jobs (id), torrent_path TEXT NOT NULL, length_bytes INTEGER NOT NULL, source_path TEXT, match_confidence TEXT, match_evidence TEXT, materialized_as TEXT, recheck_progress REAL, PRIMARY KEY (job_id, torrent_path)); CREATE TABLE IF NOT EXISTS repair_job_transitions (id INTEGER PRIMARY KEY, job_id INTEGER NOT NULL REFERENCES repair_jobs (id), from_state TEXT NOT NULL, to_state TEXT NOT NULL, reason TEXT NOT NULL, detail TEXT, occurred_at TEXT NOT NULL);";

/// The states the worker acts on.
pub open spec fn actionable_list() -> Seq<char> {
    "'discovered', 'torrent_fetched', 'matched', 'staged', 'injected', 'rechecking', 'verified', 'seeding'"@
}

pub fn actionable_states() -> (r: &'static str)
    ensures
        r@ == actionable_list(),
{
    "'discovered', 'torrent_fetched', 'matched', 'staged', 'injected', 'rechecking', 'verified', 'seeding'"
}

/// The states in which a job's `total_bytes` really is staged on disk.
///
/// Everything from `staged` onwards, minus the two states a discard leaves a job
/// in: `failed` (abandon-and-discard) and `discovered` (start over, which
/// re-stages from scratch). Neither discard records itself on the job, so
/// without this list the total would keep counting bytes that were deleted.
pub open spec fn staged_list() -> Seq<char> {
    "'staged', 'injected', 'rechecking', 'verified', 'seeding', 'completed'"@
}

pub fn staged_states() -> (r: &'static str)
    ensures
        r@ == staged_list(),
{
    "'staged', 'injected', 'rechecking', 'verified', 'seeding', 'completed'"
}

/// The `WHERE` clause of both job-list queries.
///
/// Every clause is `?n IS NULL OR <predicate>`, so an absent filter costs
/// nothing and the SQL stays a literal with fixed arity. `json_each` is what
/// makes a variable-length list fit: it arrives as a single bound parameter.
pub open spec fn predicates() -> Seq<char> {
    "(?1 IS NULL OR state IN (SELECT value FROM json_each(?1))) AND (?2 IS NULL OR review_reason IN (SELECT value FROM json_each(?2))) AND (?3 IS NULL OR tracker_id IN (SELECT value FROM json_each(?3))) AND (?4 IS NULL OR torrent_name LIKE ?4 ESCAPE '\\') AND (?5 IS NULL OR info_hash = ?5)"@
}

pub fn job_filter_predicates() -> (r: &'static str)
    ensures
        r@ == predicates(),
{
    "(?1 IS NULL OR state IN (SELECT value FROM json_each(?1))) AND (?2 IS NULL OR review_reason IN (SELECT value FROM json_each(?2))) AND (?3 IS NULL OR tracker_id IN (SELECT value FROM json_each(?3))) AND (?4 IS NULL OR torrent_name LIKE ?4 ESCAPE '\\') AND (?5 IS NULL OR info_hash = ?5)"
}

/// The column, the comparison and the direction of a page. A page that
/// descends goes on below its cursor, one that ascends above it.
pub open spec fn page_order(sort: JobSort, descending: bool) -> (Seq<char>, Seq<char>, Seq<char>) {
    (
        match sort {
            JobSort::UpdatedAt => "updated_at"@,
            JobSort::CreatedAt => "created_at"@,
        },
        if descending {
            "<"@
        } else {
            ">"@
        },
        if descending {
            "DESC"@
        } else {
            "ASC"@
        },
    )
}

/// One page of jobs, for one sort column and direction.
///
/// The keyset predicate and the `ORDER BY` name the same column and go the same
/// way: if they ever disagreed, a page boundary would silently drop or repeat a
/// row.
pub open spec fn page_text(sort: JobSort, descending: bool) -> Seq<char> {
    let (column, comparison, direction) = page_order(sort, descending);
    "SELECT "@ + columns() + " FROM repair_jobs WHERE "@ + predicates() + " AND (?6 IS NULL OR ("@
        + column + ", id) "@ + comparison + " (?6, ?7)) ORDER BY "@ + column + " "@ + direction
        + ", id "@ + direction + " LIMIT ?8"@
}

pub fn page_sql(sort: JobSort, descending: bool) -> (r: String)
    ensures
        r@ == page_text(sort, descending),
{
    let column = match sort {
        JobSort::UpdatedAt => "updated_at",
        JobSort::CreatedAt => "created_at",
    };
    let (comparison, direction) = if descending {
        ("<", "DESC")
    } else {
        (">", "ASC")
    };
    let mut out = "SELECT ".to_owned();
    out.append(job_columns());
    out.append(" FROM repair_jobs WHERE ");
    out.append(job_filter_predicates());
    out.append(" AND (?6 IS NULL OR (");
    out.append(column);
    out.append(", id) ");
    out.append(comparison);
    out.append(" (?6, ?7)) ORDER BY ");
    out.append(column);
    out.append(" ");
    out.append(direction);
    out.append(", id ");
    out.append(direction);
    out.append(" LIMIT ?8");
    out
}

/// How many jobs a filter matches: the same clauses as a page, without cursor
/// and limit.
pub fn count_sql() -> (r: String)
    ensures
        r@ == "SELECT COUNT(*) AS n FROM repair_jobs WHERE "@ + predicates(),
{
    let mut out = "SELECT COUNT(*) AS n FROM repair_jobs WHERE ".to_owned();
    out.append(job_filter_predicates());
    out
}

/// `SELECT`, the columns of a job, and what follows them.
pub fn select_jobs(rest: &str) -> (r: String)
    ensures
        r@ == "SELECT "@ + columns() + " FROM repair_jobs "@ + rest@,
{
    let mut out = "SELECT ".to_owned();
    out.append(job_columns());
    out.append(" FROM repair_jobs ");
    out.append(rest);
    out
}

/// The jobs the worker still has work to do on.
pub fn unfinished_sql() -> (r: String)
    ensures
        r@ == "SELECT "@ + columns() + " FROM repair_jobs WHERE state IN ("@ + actionable_list()
            + ") ORDER BY id"@,
{
    let mut out = "SELECT ".to_owned();
    out.append(job_columns());
    out.append(" FROM repair_jobs WHERE state IN (");
    out.append(actionable_states());
    out.append(") ORDER BY id");
    out
}

/// How many of them each tracker has. The same states as [`unfinished_sql`],
/// because the number shown before removing a tracker has to be the number a
/// reload will refuse over.
pub fn unfinished_by_tracker_sql() -> (r: String)
    ensures
        r@ == "SELECT tracker_id, COUNT(*) AS n FROM repair_jobs WHERE state IN ("@
            + actionable_list() + ") GROUP BY tracker_id"@,
{
    let mut out =
        "SELECT tracker_id, COUNT(*) AS n FROM repair_jobs WHERE state IN (".to_owned();
    out.append(actionable_states());
    out.append(") GROUP BY tracker_id");
    out
}

/// The bytes of all jobs whose data is staged.
pub fn staged_bytes_sql() -> (r: String)
    ensures
        r@
            == "SELECT COALESCE(SUM(total_bytes), 0) AS n FROM repair_jobs WHERE staging_dir IS NOT NULL AND state IN ("@
            + staged_list() + ")"@,
{
    let mut out =
        "SELECT COALESCE(SUM(total_bytes), 0) AS n FROM repair_jobs WHERE staging_dir IS NOT NULL AND state IN (".to_owned();
    out.append(staged_states());
    out.append(")");
    out
}

/// Take a lease on jobs that are due: actionable, not scheduled for later, and
/// held by nobody. Those never tried come first, then the longest overdue.
pub fn claim_sql() -> (r: String)
    ensures
        r@
            == "UPDATE repair_jobs SET lease_owner = ?, lease_expires_at = ? WHERE id IN ( SELECT id FROM repair_jobs WHERE state IN ("@
            + actionable_list()
            + ") AND (next_attempt_at IS NULL OR next_attempt_at <= ?) AND (lease_expires_at IS NULL OR lease_expires_at <= ?) ORDER BY next_attempt_at IS NOT NULL, next_attempt_at, id LIMIT ? ) RETURNING "@
            + columns(),
{
    let mut out =
        "UPDATE repair_jobs SET lease_owner = ?, lease_expires_at = ? WHERE id IN ( SELECT id FROM repair_jobs WHERE state IN (".to_owned();
    out.append(actionable_states());
    out.append(
        ") AND (next_attempt_at IS NULL OR next_attempt_at <= ?) AND (lease_expires_at IS NULL OR lease_expires_at <= ?) ORDER BY next_attempt_at IS NOT NULL, next_attempt_at, id LIMIT ? ) RETURNING ",
    );
    out.append(job_columns());
    out
}

// ---------------------------------------------------------------------------
// Filters
// ---------------------------------------------------------------------------

/// The JSON text of an array of strings.
pub uninterp spec fn json_array(values: Seq<Seq<char>>) -> Seq<char>;

/// Calls `serde_json::to_string` on a list of strings, which cannot fail. The
/// text depends on the strings alone; how characters are escaped is not
/// spelled out.
#[verifier::external_body]
fn json_array_text(values: &Vec<String>) -> (r: String)
    ensures
        r@ == json_array(crate::text::texts(values@)),
{
    serde_json::to_string(values).unwrap_or_default()
}

/// A JSON array of strings for `json_each`, or `None` when the list is empty:
/// an empty array would match nothing and silently turn "no filter" into "no
/// results".
pub fn json_list(values: &Vec<String>) -> (r: Option<String>)
    ensures
        match r {
            Some(text) => values@.len() > 0 && text@ == json_array(crate::text::texts(values@)),
            None => values@.len() == 0,
        },
{
    if values.len() == 0 {
        None
    } else {
        Some(json_array_text(values))
    }
}

/// One of the three characters that `LIKE ... ESCAPE '\'` treats specially.
pub open spec fn is_special(c: char) -> bool {
    c == '%' || c == '_' || c == '\\'
}

/// A backslash before each special character.
pub open spec fn escaped(term: Seq<char>) -> Seq<char>
    decreases term.len(),
{
    if term.len() == 0 {
        Seq::empty()
    } else if is_special(term.last()) {
        escaped(term.drop_last()).push('\\').push(term.last())
    } else {
        escaped(term.drop_last()).push(term.last())
    }
}

/// What an escaped text stands for: a backslash means the character behind it.
pub open spec fn unescaped(text: Seq<char>) -> Seq<char>
    decreases text.len(),
{
    if text.len() == 0 {
        Seq::empty()
    } else if text[0] == '\\' && text.len() > 1 {
        seq![text[1]] + unescaped(text.skip(2))
    } else {
        seq![text[0]] + unescaped(text.skip(1))
    }
}

/// Escape the three characters `LIKE ... ESCAPE '\'` treats specially.
///
/// Without this, a search for `%` matches every job and a search for `_`
/// matches any single character, so the search box would quietly lie.
pub fn escape_like(term: &str) -> (r: String)
    ensures
        r@ == escaped(term@),
{
    let chars = chars_of(term);
    let mut out = String::new();
    let mut i: usize = 0;
    while i < chars.len()
        invariant
            chars@ == term@,
            i <= chars@.len(),
            out@ == escaped(term@.take(i as int)),
        decreases chars@.len() - i,
    {
        proof {
            assert(term@.take(i + 1).drop_last() =~= term@.take(i as int));
            assert(term@.take(i + 1).last() == chars@[i as int]);
        }
        let c: char = chars[i];
        if c == '%' || c == '_' || c == '\\' {
            out.push('\\');
        }
        out.push(c);
        i += 1;
    }
    assert(term@.take(i as int) =~= term@);
    out
}

/// An escaped text stands for exactly the text that was escaped.
pub proof fn escaping_loses_nothing(term: Seq<char>)
    ensures
        unescaped(escaped(term)) == term,
{
    unescaped_prefix(term, Seq::empty());
    assert(escaped(term) + Seq::<char>::empty() =~= escaped(term));
    assert(term + unescaped(Seq::empty()) =~= term);
}

proof fn unescaped_prefix(term: Seq<char>, rest: Seq<char>)
    ensures
        unescaped(escaped(term) + rest) == term + unescaped(rest),
    decreases term.len(),
{
    if term.len() == 0 {
        assert(escaped(term) + rest =~= rest);
        assert(term + unescaped(rest) =~= unescaped(rest));
    } else {
        let c = term.last();
        let front = term.drop_last();
        let tail = if is_special(c) {
            seq!['\\', c] + rest
        } else {
            seq![c] + rest
        };
        assert(escaped(term) + rest =~= escaped(front) + tail);
        unescaped_prefix(front, tail);
        if is_special(c) {
            assert(tail.skip(2) =~= rest);
            assert(tail[0] == '\\' && tail[1] == c);
        } else {
            assert(tail.skip(1) =~= rest);
            assert(tail[0] == c);
        }
        assert(unescaped(tail) =~= seq![c] + unescaped(rest));
        assert(front + (seq![c] + unescaped(rest)) =~= term + unescaped(rest));
    }
}

/// What is searched for: nothing, an info-hash, or a part of a name.
pub open spec fn search_meaning(search: Option<Seq<char>>) -> (
    Option<Seq<char>>,
    Option<Seq<char>>,
) {
    match search {
        None => (None, None),
        Some(raw) => {
            let term = crate::text::trimmed(raw);
            if term.len() == 0 {
                (None, None)
            } else if crate::torrent::domain::is_hash(term) {
                (None, Some(crate::text::lowered(term)))
            } else {
                (Some(seq!['%'] + escaped(term) + seq!['%']), None)
            }
        },
    }
}

/// The text of an optional string.
pub open spec fn text_in(s: Option<String>) -> Option<Seq<char>> {
    match s {
        Some(text) => Some(text@),
        None => None,
    }
}

/// Split a search term into the `LIKE` pattern and the exact info-hash it might
/// be instead.
///
/// A 40-character hex string is an info-hash, and matching it as a substring of
/// `torrent_name` would find nothing, so it binds the other parameter. At most
/// one of the two is ever `Some`.
pub fn split_search(search: Option<&str>) -> (r: (Option<String>, Option<String>))
    ensures
        (text_in(r.0), text_in(r.1)) == search_meaning(
            match search {
                Some(s) => Some(s@),
                None => None,
            },
        ),
        r.0 is None || r.1 is None,
{
    match search {
        None => (None, None),
        Some(raw) => {
            let term = trim(raw);
            let chars = chars_of(term.as_str());
            if chars.len() == 0 {
                return (None, None);
            }
            if crate::torrent::domain::looks_like_a_hash(term.as_str()) {
                return (None, Some(lower_string(term.as_str())));
            }
            let mut pattern = "".to_owned();
            proof {
                reveal_strlit("");
            }
            pattern.push('%');
            pattern.append(escape_like(term.as_str()).as_str());
            pattern.push('%');
            assert(pattern@ =~= seq!['%'] + escaped(term@) + seq!['%']);
            (Some(pattern), None)
        },
    }
}

/// The five parameters of [`job_filter_predicates`], in their order.
#[derive(Debug, PartialEq, Eq)]
pub struct FilterBinds {
    pub states: Option<String>,
    pub review_reasons: Option<String>,
    pub trackers: Option<String>,
    pub name: Option<String>,
    pub hash: Option<String>,
}

/// The array of names, or nothing where there are none.
pub open spec fn listed(names: Seq<Seq<char>>) -> Option<Seq<char>> {
    if names.len() == 0 {
        None
    } else {
        Some(json_array(names))
    }
}

/// What is bound to `?1` to `?5` of [`job_filter_predicates`], in that order.
///
/// One function for both the page query and its count, so the two can never
/// disagree about what a filter meant.
pub fn bind_filter(filter: &JobFilter) -> (r: FilterBinds)
    ensures
        text_in(r.states) == listed(filter.states@.map_values(|s: RepairState| s.name())),
        text_in(r.review_reasons) == listed(
            filter.review_reasons@.map_values(|s: ReviewReason| s.name()),
        ),
        text_in(r.trackers) == listed(filter.trackers@.map_values(|t: TrackerId| t@)),
        (text_in(r.name), text_in(r.hash)) == search_meaning(text_in(filter.search)),
{
    let mut states: Vec<String> = Vec::new();
    let mut i: usize = 0;
    while i < filter.states.len()
        invariant
            i <= filter.states@.len(),
            crate::text::texts(states@) =~= filter.states@.take(i as int).map_values(
                |s: RepairState| s.name(),
            ),
        decreases filter.states@.len() - i,
    {
        push_text(&mut states, filter.states[i].as_str());
        i += 1;
    }
    let mut reasons: Vec<String> = Vec::new();
    let mut j: usize = 0;
    while j < filter.review_reasons.len()
        invariant
            j <= filter.review_reasons@.len(),
            crate::text::texts(reasons@) =~= filter.review_reasons@.take(j as int).map_values(
                |s: ReviewReason| s.name(),
            ),
        decreases filter.review_reasons@.len() - j,
    {
        push_text(&mut reasons, filter.review_reasons[j].as_str());
        j += 1;
    }
    let mut trackers: Vec<String> = Vec::new();
    let mut k: usize = 0;
    while k < filter.trackers.len()
        invariant
            k <= filter.trackers@.len(),
            crate::text::texts(trackers@) =~= filter.trackers@.take(k as int).map_values(
                |t: TrackerId| t@,
            ),
        decreases filter.trackers@.len() - k,
    {
        push_text(&mut trackers, filter.trackers[k].as_str());
        k += 1;
    }
    proof {
        assert(filter.states@.take(i as int) =~= filter.states@);
        assert(filter.review_reasons@.take(j as int) =~= filter.review_reasons@);
        assert(filter.trackers@.take(k as int) =~= filter.trackers@);
    }
    let search: Option<&str> = match &filter.search {
        Some(text) => Some(text.as_str()),
        None => None,
    };
    let (name, hash) = split_search(search);
    FilterBinds {
        states: json_list(&states),
        review_reasons: json_list(&reasons),
        trackers: json_list(&trackers),
        name,
        hash,
    }
}

// ---------------------------------------------------------------------------
// Counts
// ---------------------------------------------------------------------------

/// Where a state's name stands among all states' names in the order of
/// strings.
pub open spec fn alphabetical(state: RepairState) -> int {
    match state {
        RepairState::AwaitingReview => 0,
        RepairState::Completed => 1,
        RepairState::Discovered => 2,
        RepairState::Failed => 3,
        RepairState::Injected => 4,
        RepairState::Matched => 5,
        RepairState::Rechecking => 6,
        RepairState::Seeding => 7,
        RepairState::Staged => 8,
        RepairState::TorrentFetched => 9,
        RepairState::Verified => 10,
    }
}

/// The numbering follows the order of strings.
pub proof fn alphabetical_is_the_order_of_names(a: RepairState, b: RepairState)
    ensures
        alphabetical(a) < alphabetical(b) <==> crate::text::precedes(a.name(), b.name()),
{
    reveal_strlit("discovered");
    reveal_strlit("torrent_fetched");
    reveal_strlit("matched");
    reveal_strlit("staged");
    reveal_strlit("injected");
    reveal_strlit("rechecking");
    reveal_strlit("verified");
    reveal_strlit("seeding");
    reveal_strlit("completed");
    reveal_strlit("awaiting_review");
    reveal_strlit("failed");
    reveal_with_fuel(crate::text::precedes, 2);
    if a == b {
        crate::text::precedes_irreflexive(a.name());
    } else {
        assert(a.name()[0] == b.name()[0] ==> a.name().drop_first()[0] == a.name()[1]
            && b.name().drop_first()[0] == b.name()[1]);
    }
}

fn alphabetical_rank(state: RepairState) -> (r: i128)
    ensures
        r == alphabetical(state),
{
    match state {
        RepairState::AwaitingReview => 0,
        RepairState::Completed => 1,
        RepairState::Discovered => 2,
        RepairState::Failed => 3,
        RepairState::Injected => 4,
        RepairState::Matched => 5,
        RepairState::Rechecking => 6,
        RepairState::Seeding => 7,
        RepairState::Staged => 8,
        RepairState::TorrentFetched => 9,
        RepairState::Verified => 10,
    }
}

/// The state with that name.
pub open spec fn state_named(name: Seq<char>) -> RepairState {
    choose|state: RepairState| #[trigger] state.name() == name
}

/// The counted states that are known, each with its place in the alphabet. A
/// state that is not known is left out rather than failing the whole count.
pub open spec fn known_states(rows: Seq<(String, i64)>) -> Seq<(i128, (RepairState, i64))>
    decreases rows.len(),
{
    if rows.len() == 0 {
        Seq::empty()
    } else {
        let front = known_states(rows.drop_last());
        let (name, n) = rows.last();
        if super::rows::names_a_state(name@) {
            let state = state_named(name@);
            front.push((alphabetical(state) as i128, (state, n)))
        } else {
            front
        }
    }
}

/// The sum of the known counts.
pub open spec fn known_total(rows: Seq<(String, i64)>) -> int
    decreases rows.len(),
{
    if rows.len() == 0 {
        0
    } else {
        known_total(rows.drop_last()) + if super::rows::names_a_state(rows.last().0@) {
            rows.last().1 as int
        } else {
            0
        }
    }
}

/// The reason with that name, if there is one.
pub open spec fn reason_named(name: Option<Seq<char>>) -> Option<ReviewReason> {
    match name {
        None => None,
        Some(text) => if exists|reason: ReviewReason| text == #[trigger] reason.name() {
            Some(choose|reason: ReviewReason| text == #[trigger] reason.name())
        } else {
            None
        },
    }
}

/// The counted reasons, each with the count as a key that puts large ones
/// first.
pub open spec fn keyed_reasons(rows: Seq<(Option<String>, i64)>) -> Seq<
    (i128, (Option<ReviewReason>, i64)),
> {
    rows.map_values(
        |row: (Option<String>, i64)|
            ((-row.1) as i128, (reason_named(text_in(row.0)), row.1)),
    )
}

/// The counts of each prefix of the rows fit.
pub open spec fn totals_fit(rows: Seq<(String, i64)>) -> bool {
    forall|k: int|
        0 <= k <= rows.len() ==> i64::MIN <= #[trigger] known_total(rows.take(k)) <= i64::MAX
}

/// Put the counts of `GROUP BY` queries together: states in the order of their
/// names, review reasons with the biggest group first, because twenty repairs
/// blocked on one thing is one problem, and should read as one.
pub fn counts(by_state: Vec<(String, i64)>, by_reason: Vec<(Option<String>, i64)>) -> (r: JobCounts)
    requires
        totals_fit(by_state@),
    ensures
        exists|s: Seq<(i128, (RepairState, i64))>| #[trigger]
            crate::sorting::sorts(known_states(by_state@), s) && r.by_state@ == s.map_values(
                |x: (i128, (RepairState, i64))| x.1,
            ),
        exists|s: Seq<(i128, (Option<ReviewReason>, i64))>| #[trigger]
            crate::sorting::sorts(keyed_reasons(by_reason@), s) && r.by_review_reason@
                == s.map_values(|x: (i128, (Option<ReviewReason>, i64))| x.1),
        r.total == known_total(by_state@),
{
    let mut keyed: Vec<(i128, (RepairState, i64))> = Vec::new();
    let mut total: i64 = 0;
    let mut i: usize = 0;
    while i < by_state.len()
        invariant
            i <= by_state@.len(),
            totals_fit(by_state@),
            keyed@ == known_states(by_state@.take(i as int)),
            total == known_total(by_state@.take(i as int)),
        decreases by_state@.len() - i,
    {
        proof {
            assert(by_state@.take(i + 1).drop_last() =~= by_state@.take(i as int));
            assert(by_state@.take(i + 1).last() == by_state@[i as int]);
            assert(i64::MIN <= known_total(by_state@.take(i + 1)) <= i64::MAX);
            crate::repair::domain::state_names_are_distinct();
        }
        let n: i64 = by_state[i].1;
        match RepairState::parse(by_state[i].0.as_str()) {
            Ok(state) => {
                proof {
                    assert(state.name() == by_state@[i as int].0@);
                    assert(state_named(by_state@[i as int].0@) == state);
                }
                total = total + n;
                keyed.push((alphabetical_rank(state), (state, n)));
            },
            Err(_) => {},
        }
        i += 1;
    }
    assert(by_state@.take(i as int) =~= by_state@);

    let mut reasons: Vec<(i128, (Option<ReviewReason>, i64))> = Vec::new();
    let mut j: usize = 0;
    while j < by_reason.len()
        invariant
            j <= by_reason@.len(),
            reasons@ =~= keyed_reasons(by_reason@.take(j as int)),
        decreases by_reason@.len() - j,
    {
        let n: i64 = by_reason[j].1;
        let reason = match &by_reason[j].0 {
            Some(name) => ReviewReason::parse(name.as_str()),
            None => None,
        };
        proof {
            crate::repair::domain::review_reason_names_are_distinct();
            let row = by_reason@[j as int];
            if let Some(found) = reason {
                assert(found.name() == row.0->0@);
            }
            assert(reason == reason_named(text_in(row.0)));
        }
        let key: i128 = -(n as i128);
        reasons.push((key, (reason, n)));
        j += 1;
    }
    assert(by_reason@.take(j as int) =~= by_reason@);

    let sorted = sort_by_key(keyed);
    let mut out_states: Vec<(RepairState, i64)> = Vec::new();
    let mut a: usize = 0;
    while a < sorted.len()
        invariant
            a <= sorted@.len(),
            out_states@ =~= sorted@.take(a as int).map_values(
                |x: (i128, (RepairState, i64))| x.1,
            ),
        decreases sorted@.len() - a,
    {
        out_states.push(sorted[a].1);
        a += 1;
    }
    assert(sorted@.take(a as int) =~= sorted@);

    let sorted_reasons = sort_by_key(reasons);
    let mut out_reasons: Vec<(Option<ReviewReason>, i64)> = Vec::new();
    let mut b: usize = 0;
    while b < sorted_reasons.len()
        invariant
            b <= sorted_reasons@.len(),
            out_reasons@ =~= sorted_reasons@.take(b as int).map_values(
                |x: (i128, (Option<ReviewReason>, i64))| x.1,
            ),
        decreases sorted_reasons@.len() - b,
    {
        out_reasons.push(sorted_reasons[b].1);
        b += 1;
    }
    assert(sorted_reasons@.take(b as int) =~= sorted_reasons@);

    JobCounts { by_state: out_states, by_review_reason: out_reasons, total }
}

/// A search for nothing finds everything; forty hexadecimal digits are an
/// info-hash, in small letters; and anything else is looked for in the names, as it
/// stands between wildcards.
pub proof fn what_a_search_means(raw: Seq<char>)
    ensures
        search_meaning(None) == (None::<Seq<char>>, None::<Seq<char>>),
        ({
            let term = crate::text::trimmed(raw);
            let hash = term.len() == 40 && forall|i: int|
                0 <= i < term.len() ==> '0' <= #[trigger] term[i] <= '9' || 'a' <= term[i] <= 'f'
                    || 'A' <= term[i] <= 'F';
            &&& term.len() == 0 ==> search_meaning(Some(raw)) == (
                None::<Seq<char>>,
                None::<Seq<char>>,
            )
            &&& hash ==> search_meaning(Some(raw)) == (
                None::<Seq<char>>,
                Some(crate::text::lowered(term)),
            )
            &&& term.len() > 0 && !hash ==> search_meaning(Some(raw)) == (
                Some(seq!['%'] + escaped(term) + seq!['%']),
                None::<Seq<char>>,
            )
        }),
{
    crate::torrent::domain::what_an_info_hash_is(crate::text::trimmed(raw));
}

/// A wildcard, an underscore and a backslash are escaped by a backslash, and
/// nothing else is.
pub proof fn what_is_escaped(term: Seq<char>, c: char)
    ensures
        escaped(Seq::empty()).len() == 0,
        escaped(term.push(c)) == if c == '%' || c == '_' || c == '\\' {
            escaped(term) + seq!['\\', c]
        } else {
            escaped(term).push(c)
        },
{
    assert(term.push(c).drop_last() =~= term);
    assert(escaped(term).push('\\').push(c) =~= escaped(term) + seq!['\\', c]);
}

/// The newest come first where the order is descending, and a page goes on behind
/// the last row of the one before, in the same direction.
pub proof fn how_a_page_is_ordered(sort: JobSort, descending: bool)
    ensures
        page_order(sort, descending).0 == match sort {
            JobSort::UpdatedAt => "updated_at"@,
            JobSort::CreatedAt => "created_at"@,
        },
        descending ==> page_order(sort, descending).1 == "<"@ && page_order(sort, descending).2
            == "DESC"@,
        !descending ==> page_order(sort, descending).1 == ">"@ && page_order(sort, descending).2
            == "ASC"@,
        ({
            let (column, comparison, direction) = page_order(sort, descending);
            page_text(sort, descending) == "SELECT "@ + columns() + " FROM repair_jobs WHERE "@
                + predicates() + " AND (?6 IS NULL OR ("@ + column + ", id) "@ + comparison
                + " (?6, ?7)) ORDER BY "@ + column + " "@ + direction + ", id "@ + direction
                + " LIMIT ?8"@
        }),
{
}

/// The states with work are those that the worker's query names, in the order of
/// the lifecycle; and those with data staged are the ones from staging on.
pub proof fn the_queries_name_the_states()
    ensures
        actionable_list() == "'"@ + RepairState::Discovered.name() + "', '"@
            + RepairState::TorrentFetched.name() + "', '"@ + RepairState::Matched.name() + "', '"@
            + RepairState::Staged.name() + "', '"@ + RepairState::Injected.name() + "', '"@
            + RepairState::Rechecking.name() + "', '"@ + RepairState::Verified.name() + "', '"@
            + RepairState::Seeding.name() + "'"@,
        staged_list() == "'"@ + RepairState::Staged.name() + "', '"@ + RepairState::Injected.name()
            + "', '"@ + RepairState::Rechecking.name() + "', '"@ + RepairState::Verified.name()
            + "', '"@ + RepairState::Seeding.name() + "', '"@ + RepairState::Completed.name()
            + "'"@,
{
    reveal_strlit(
        "'discovered', 'torrent_fetched', 'matched', 'staged', 'injected', 'rechecking', 'verified', 'seeding'",
    );
    reveal_strlit("'staged', 'injected', 'rechecking', 'verified', 'seeding', 'completed'");
    reveal_strlit("'");
    reveal_strlit("', '");
    reveal_strlit("discovered");
    reveal_strlit("torrent_fetched");
    reveal_strlit("matched");
    reveal_strlit("staged");
    reveal_strlit("injected");
    reveal_strlit("rechecking");
    reveal_strlit("verified");
    reveal_strlit("seeding");
    reveal_strlit("completed");
}

/// A row counts where its state is known, and counts as many as it says; one of an
/// unknown state counts nothing.
pub proof fn which_rows_count(rows: Seq<(String, i64)>, row: (String, i64))
    ensures
        known_total(Seq::empty()) == 0,
        (exists|state: RepairState| row.0@ == #[trigger] state.name()) ==> known_total(
            rows.push(row),
        ) == known_total(rows) + row.1 && known_states(rows.push(row)).len() == known_states(
            rows,
        ).len() + 1 && known_states(rows.push(row)).last().1.1 == row.1 && known_states(
            rows.push(row),
        ).last().1.0.name() == row.0@,
        !(exists|state: RepairState| row.0@ == #[trigger] state.name()) ==> known_total(
            rows.push(row),
        ) == known_total(rows) && known_states(rows.push(row)) == known_states(rows),
{
    assert(rows.push(row).drop_last() =~= rows);
}

/// The reasons that most repairs wait for come first.
pub proof fn the_most_frequent_reason_comes_first(
    rows: Seq<(Option<String>, i64)>,
    sorted: Seq<(i128, (Option<ReviewReason>, i64))>,
    i: int,
    j: int,
)
    requires
        crate::sorting::sorts(keyed_reasons(rows), sorted),
        0 <= i < j < sorted.len(),
    ensures
        sorted[j].1.1 <= sorted[i].1.1,
{
    crate::sorting::sorting_brings_nothing_in(keyed_reasons(rows), sorted, i);
    crate::sorting::sorting_brings_nothing_in(keyed_reasons(rows), sorted, j);
}

} // verus!
