//! `TorrentFetched → Matched`: choose a library file for every torrent file.
//!
//! Queries every configured candidate source and matches over the union. A
//! source that fails degrades the result rather than failing the step. But if
//! *nothing* answered, the step retries instead of concluding "no candidates",
//! because those two are not the same thing.

use vstd::prelude::*;
use vstd::string::*;

use super::outcome::{review_error, StepOutcome};
use crate::json::{Doc, Json};
use crate::library::{
    plan_matches, Candidate, CandidateError, CandidateQuery, FileMatch, UnmatchedFile,
    UnmatchedReason,
};
use crate::repair::domain::{RepairJob, ReviewReason};
use crate::repair::policy::{decide_match, MatchDecision, SafetyPolicy};
use crate::repair::ports::{Changes, JobPatch, PlannedFile, StoreError};
use crate::text::quote;
use crate::torrent::TorrentFile;

verus! {

/// What one candidate source answered.
#[derive(Debug, PartialEq, Eq)]
pub struct SourceAnswer {
    pub label: String,
    pub answer: Result<Vec<Candidate>, CandidateError>,
}

/// The planned file as the torrent has it.
pub open spec fn torrent_file(file: PlannedFile) -> TorrentFile {
    TorrentFile { path: file.torrent_path, length: file.length }
}

pub open spec fn torrent_files(files: Seq<PlannedFile>) -> Seq<TorrentFile> {
    files.map_values(|file: PlannedFile| torrent_file(file))
}

/// The query asks about the files on record; or why there is none.
pub open spec fn query_made(
    job: RepairJob,
    planned: Result<Vec<PlannedFile>, StoreError>,
    r: Result<CandidateQuery, StepOutcome>,
) -> bool {
    match (planned, r) {
        (Ok(files), Ok(query)) => files@.len() > 0 && query.torrent_name@ == job.torrent_name@
            && query.files@ == torrent_files(files@),
        (Ok(files), Err(outcome)) => files@.len() == 0 && outcome.parks_with(
            ReviewReason::TorrentUnreadable,
            super::outcome::error_doc("the torrent recorded no files"@),
        ),
        (Err(error), Err(outcome)) => outcome.retries(error.sentence()),
        (Err(_), Ok(_)) => false,
    }
}

/// What to ask the candidate sources about, or why nothing can be asked.
pub fn match_query(job: &RepairJob, planned: &Result<Vec<PlannedFile>, StoreError>) -> (r: Result<
    CandidateQuery,
    StepOutcome,
>)
    ensures
        query_made(*job, *planned, r),
{
    let files = match planned {
        Ok(files) => files,
        Err(error) => return Err(StepOutcome::retry(error.message())),
    };
    if files.len() == 0 {
        return Err(
            review_error(ReviewReason::TorrentUnreadable, "the torrent recorded no files"),
        );
    }
    let mut wanted: Vec<TorrentFile> = Vec::new();
    let mut i: usize = 0;
    while i < files.len()
        invariant
            i <= files@.len(),
            wanted@ =~= torrent_files(files@.take(i as int)),
        decreases files@.len() - i,
    {
        wanted.push(
            TorrentFile { path: files[i].torrent_path.clone(), length: files[i].length },
        );
        i += 1;
    }
    assert(files@.take(i as int) =~= files@);
    Ok(CandidateQuery { torrent_name: job.torrent_name.clone(), files: wanted })
}

/// All candidates that were found, source by source.
pub open spec fn found(answers: Seq<SourceAnswer>) -> Seq<Candidate>
    decreases answers.len(),
{
    if answers.len() == 0 {
        Seq::empty()
    } else {
        found(answers.drop_last()) + match answers.last().answer {
            Ok(candidates) => candidates@,
            Err(_) => Seq::empty(),
        }
    }
}

/// What is told of a source that failed.
pub open spec fn failure_doc(label: Seq<char>, error: CandidateError) -> Doc {
    let source = crate::json::fact("source"@, Doc::Text(label));
    match error {
        CandidateError::NotImplemented(details) => source.with("todo"@, Doc::Text(details.todo@)),
        _ => source.with("error"@, Doc::Text(error.sentence())),
    }
}

/// What is told of the sources that failed, in their order.
pub open spec fn failed(answers: Seq<SourceAnswer>) -> Seq<Doc>
    decreases answers.len(),
{
    if answers.len() == 0 {
        Seq::empty()
    } else {
        match answers.last().answer {
            Ok(_) => failed(answers.drop_last()),
            Err(error) => failed(answers.drop_last()).push(
                failure_doc(answers.last().label@, error),
            ),
        }
    }
}

/// The failure of one source, as a line of text.
pub open spec fn failure_text(label: Seq<char>, error: CandidateError) -> Seq<char> {
    match error {
        CandidateError::NotImplemented(details) => "Object {\"source\": String("@
            + crate::text::quoted(label) + "), \"todo\": String("@ + crate::text::quoted(
            details.todo@,
        ) + ")}"@,
        _ => "Object {\"error\": String("@ + crate::text::quoted(error.sentence())
            + "), \"source\": String("@ + crate::text::quoted(label) + ")}"@,
    }
}

/// The failures, as a text.
pub open spec fn failure_texts(answers: Seq<SourceAnswer>) -> Seq<char>
    decreases answers.len(),
{
    if answers.len() == 0 {
        Seq::empty()
    } else {
        let before = failure_texts(answers.drop_last());
        match answers.last().answer {
            Ok(_) => before,
            Err(error) => if before.len() == 0 {
                failure_text(answers.last().label@, error)
            } else {
                before + ", "@ + failure_text(answers.last().label@, error)
            },
        }
    }
}

/// Some source is a stub.
pub open spec fn stubbed(answers: Seq<SourceAnswer>) -> bool {
    exists|i: int|
        0 <= i < answers.len() && (#[trigger] answers[i]).answer matches Err(
            CandidateError::NotImplemented(_),
        )
}

/// What is told of the reason why a file is not matched.
pub open spec fn reason_doc(reason: UnmatchedReason) -> Doc {
    match reason {
        UnmatchedReason::NoCandidate => Doc::Text("no_candidate"@),
        UnmatchedReason::Ambiguous { candidates } => crate::json::fact(
            "ambiguous"@,
            crate::json::fact("candidates"@, Doc::Number(candidates as int)),
        ),
    }
}

pub open spec fn unmatched_doc(file: UnmatchedFile) -> Doc {
    crate::json::fact("path"@, Doc::Text(file.torrent_path@)).with(
        "reason"@,
        reason_doc(file.reason),
    )
}

/// What is told of a match plan.
pub open spec fn plan_doc(
    candidates: int,
    matched: Seq<FileMatch>,
    unmatched: Seq<UnmatchedFile>,
    failures: Seq<Doc>,
) -> Doc {
    crate::json::fact("candidates"@, Doc::Number(candidates)).with(
        "matched"@,
        Doc::Number(matched.len() as int),
    ).with(
        "unmatched"@,
        Doc::List(unmatched.map_values(|file: UnmatchedFile| unmatched_doc(file))),
    ).with("sources_failed"@, Doc::List(failures))
}

/// A matched file, planned.
pub open spec fn chosen(matched: FileMatch) -> PlannedFile {
    PlannedFile {
        torrent_path: matched.torrent_path,
        length: matched.length,
        source: Some(matched.source),
        confidence: Some(matched.confidence),
        evidence: Some(matched.evidence),
        materialized_as: None,
        recheck_progress: None,
    }
}

/// What matching comes to.
pub open spec fn matching_judged(
    job: RepairJob,
    files: Seq<TorrentFile>,
    answers: Seq<SourceAnswer>,
    policy: SafetyPolicy,
    outcome: StepOutcome,
) -> bool {
    let candidates = found(answers);
    let failures = failed(answers);
    let matched = crate::library::matching::matches_of(files, candidates);
    let unmatched = crate::library::matching::misses_of(files, candidates);
    let told = plan_doc(candidates.len() as int, matched, unmatched, failures);
    if candidates.len() == 0 && failures.len() > 0 {
        if stubbed(answers) && failures.len() == answers.len() {
            outcome.parks_with(
                ReviewReason::AdapterNotImplemented,
                crate::json::fact("sources"@, Doc::List(failures)),
            )
        } else {
            outcome.retries(
                "every candidate source failed: ["@ + failure_texts(answers) + "]"@,
            )
        }
    } else {
        match crate::repair::policy::deserved(matched, unmatched, policy.min_match_confidence) {
            MatchDecision::HoldForReview(reason) => outcome.parks_with(reason, told),
            MatchDecision::Accept => outcome.advances(
                Some(told),
                (Changes {
                    staging_dir: Some(crate::repair::domain::staging_dir_name(job.id)),
                    files: Some(matched.map_values(|m: FileMatch| chosen(m))),
                    ..crate::repair::ports::no_changes()
                }),
            ),
        }
    }
}

fn describe_failure(label: &str, error: &CandidateError) -> (r: Json)
    ensures
        r.doc() == failure_doc(label@, *error),
{
    let source = Json::fact("source", Json::text(label));
    match error {
        CandidateError::NotImplemented(details) => source.with("todo", Json::text(details.todo)),
        _ => source.with("error", Json::Text(error.message())),
    }
}

fn render_failure(label: &str, error: &CandidateError) -> (r: String)
    ensures
        r@ == failure_text(label@, *error),
        r@.len() > 0,
{
    proof {
        reveal_strlit("Object {\"source\": String(");
        reveal_strlit("Object {\"error\": String(");
    }
    match error {
        CandidateError::NotImplemented(details) => {
            let mut out = "Object {\"source\": String(".to_owned();
            out.append(quote(label).as_str());
            out.append("), \"todo\": String(");
            out.append(quote(details.todo).as_str());
            out.append(")}");
            out
        },
        _ => {
            let mut out = "Object {\"error\": String(".to_owned();
            out.append(quote(error.message().as_str()).as_str());
            out.append("), \"source\": String(");
            out.append(quote(label).as_str());
            out.append(")}");
            out
        },
    }
}

fn describe_unmatched(files: &Vec<UnmatchedFile>) -> (r: Json)
    ensures
        r.doc() == Doc::List(files@.map_values(|file: UnmatchedFile| unmatched_doc(file))),
{
    let mut out: Vec<Json> = Vec::new();
    let mut i: usize = 0;
    while i < files.len()
        invariant
            i <= files@.len(),
            crate::json::docs(out@) =~= files@.take(i as int).map_values(
                |file: UnmatchedFile| unmatched_doc(file),
            ),
        decreases files@.len() - i,
    {
        let reason = match files[i].reason {
            UnmatchedReason::NoCandidate => Json::text("no_candidate"),
            UnmatchedReason::Ambiguous { candidates } => Json::fact(
                "ambiguous",
                Json::fact("candidates", Json::count(candidates)),
            ),
        };
        let item = Json::fact("path", Json::text(files[i].torrent_path.as_str())).with(
            "reason",
            reason,
        );
        let ghost before = crate::json::docs(out@);
        let ghost added = item.doc();
        out.push(item);
        assert(crate::json::docs(out@) =~= before.push(added));
        assert(added == unmatched_doc(files@[i as int]));
        i += 1;
    }
    assert(files@.take(i as int) =~= files@);
    Json::list(out)
}

fn choose_files(matched: &Vec<FileMatch>) -> (r: Vec<PlannedFile>)
    ensures
        r@ == matched@.map_values(|m: FileMatch| chosen(m)),
{
    let mut out: Vec<PlannedFile> = Vec::new();
    let mut i: usize = 0;
    while i < matched.len()
        invariant
            i <= matched@.len(),
            out@ =~= matched@.take(i as int).map_values(|m: FileMatch| chosen(m)),
        decreases matched@.len() - i,
    {
        out.push(
            PlannedFile {
                torrent_path: matched[i].torrent_path.clone(),
                length: matched[i].length,
                source: Some(matched[i].source.clone()),
                confidence: Some(matched[i].confidence),
                evidence: Some(matched[i].evidence),
                materialized_as: None,
                recheck_progress: None,
            },
        );
        i += 1;
    }
    assert(matched@.take(i as int) =~= matched@);
    out
}

/// Judge what the candidate sources answered.
pub fn match_media(
    job: &RepairJob,
    query: &CandidateQuery,
    answers: Vec<SourceAnswer>,
    policy: &SafetyPolicy,
) -> (r: StepOutcome)
    ensures
        matching_judged(*job, query.files@, answers@, *policy, r),
{
    let mut candidates: Vec<Candidate> = Vec::new();
    let mut failures: Vec<Json> = Vec::new();
    let mut text = String::new();
    let mut stub: bool = false;
    let mut i: usize = 0;
    while i < answers.len()
        invariant
            i <= answers@.len(),
            candidates@ == found(answers@.take(i as int)),
            crate::json::docs(failures@) == failed(answers@.take(i as int)),
            text@ == failure_texts(answers@.take(i as int)),
            stub == stubbed(answers@.take(i as int)),
        decreases answers@.len() - i,
    {
        let ghost now = answers@.take(i + 1);
        proof {
            assert(now.drop_last() =~= answers@.take(i as int));
            assert(now.last() == answers@[i as int]);
            if stub {
                let k = choose|k: int|
                    0 <= k < i && (#[trigger] answers@.take(i as int)[k]).answer matches Err(
                        CandidateError::NotImplemented(_),
                    );
                assert(now[k].answer matches Err(CandidateError::NotImplemented(_)));
            }
        }
        match &answers[i].answer {
            Ok(list) => {
                let mut j: usize = 0;
                while j < list.len()
                    invariant
                        j <= list@.len(),
                        candidates@ =~= found(answers@.take(i as int)) + list@.take(j as int),
                    decreases list@.len() - j,
                {
                    candidates.push(list[j].clone());
                    j += 1;
                }
                assert(list@.take(j as int) =~= list@);
            },
            Err(error) => {
                assert(candidates@ =~= candidates@ + Seq::empty());
                let failure = describe_failure(answers[i].label.as_str(), error);
                let ghost before = crate::json::docs(failures@);
                let ghost added = failure.doc();
                failures.push(failure);
                assert(crate::json::docs(failures@) =~= before.push(added));
                let empty: bool = text.as_str().is_empty();
                if !empty {
                    text.append(", ");
                }
                text.append(render_failure(answers[i].label.as_str(), error).as_str());
                proof {
                    if empty {
                        assert(text@ =~= failure_text(answers@[i as int].label@, *error));
                    }
                }
                match error {
                    CandidateError::NotImplemented(_) => {
                        stub = true;
                        assert(now[i as int].answer matches Err(CandidateError::NotImplemented(_)));
                    },
                    _ => {},
                }
            },
        }
        proof {
            if stubbed(now) && !stubbed(answers@.take(i as int)) {
                let k = choose|k: int|
                    0 <= k < now.len() && (#[trigger] now[k]).answer matches Err(
                        CandidateError::NotImplemented(_),
                    );
                if k < i {
                    assert(answers@.take(i as int)[k] == now[k]);
                }
            }
        }
        i += 1;
    }
    assert(answers@.take(i as int) =~= answers@);
    assert(crate::json::docs(failures@).len() == failures@.len());

    // Nothing answered at all: "we could not look" must not be recorded as "we
    // looked and found nothing".
    if candidates.len() == 0 && failures.len() > 0 {
        return if stub && failures.len() == answers.len() {
            StepOutcome::review(
                ReviewReason::AdapterNotImplemented,
                Json::fact("sources", Json::list(failures)),
            )
        } else {
            let mut error = "every candidate source failed: [".to_owned();
            error.append(text.as_str());
            error.append("]");
            StepOutcome::retry(error)
        };
    }

    let plan = plan_matches(query.files.as_slice(), candidates.as_slice());
    let detail = Json::fact("candidates", Json::count(candidates.len())).with(
        "matched",
        Json::count(plan.matched.len()),
    ).with("unmatched", describe_unmatched(&plan.unmatched)).with(
        "sources_failed",
        Json::list(failures),
    );

    match decide_match(&plan, policy) {
        MatchDecision::HoldForReview(reason) => StepOutcome::review(reason, detail),
        MatchDecision::Accept => {
            let mut patch = JobPatch::default();
            patch.staging_dir = Some(job.default_staging_dir());
            patch.files = Some(choose_files(&plan.matched));
            StepOutcome::advance_with(detail, patch)
        },
    }
}

/// Where a source failed and no other found anything, the step never concludes
/// that there are no candidates: it is tried again, or parked as not looked at.
pub proof fn a_failure_is_not_an_empty_answer(
    job: RepairJob,
    files: Seq<TorrentFile>,
    answers: Seq<SourceAnswer>,
    policy: SafetyPolicy,
    outcome: StepOutcome,
)
    requires
        matching_judged(job, files, answers, policy, outcome),
        found(answers).len() == 0,
        failed(answers).len() > 0,
    ensures
        outcome is Retry || (outcome matches StepOutcome::Review { reason, .. } && reason
            == ReviewReason::AdapterNotImplemented),
{
}

/// That source answered, and that is one of the candidates it answered with.
pub open spec fn offers(answers: Seq<SourceAnswer>, source: int, k: int, candidate: Candidate) -> bool {
    &&& 0 <= source < answers.len()
    &&& answers[source].answer matches Ok(list) && 0 <= k < list@.len() && list@[k] == candidate
}

/// What two groups of sources found together is what each found, one after the
/// other; one source alone found what it answered with, or nothing where it
/// failed.
pub proof fn sources_are_pooled(a: Seq<SourceAnswer>, b: Seq<SourceAnswer>)
    ensures
        found(a + b) == found(a) + found(b),
        forall|one: SourceAnswer| #[trigger]
            found(seq![one]) == match one.answer {
                Ok(list) => list@,
                Err(_) => Seq::empty(),
            },
    decreases b.len(),
{
    if b.len() == 0 {
        assert(a + b =~= a);
        assert(found(a) + found(b) =~= found(a));
    } else {
        assert((a + b).drop_last() =~= a + b.drop_last());
        assert((a + b).last() == b.last());
        sources_are_pooled(a, b.drop_last());
        assert(found(a + b) =~= found(a) + found(b));
    }
    assert forall|one: SourceAnswer| #[trigger] found(seq![one]) == match one.answer {
        Ok(list) => list@,
        Err(_) => Seq::empty(),
    } by {
        assert(seq![one].drop_last() =~= Seq::<SourceAnswer>::empty());
        assert(found(Seq::<SourceAnswer>::empty()) =~= Seq::<Candidate>::empty());
        assert(found(seq![one]) =~= match one.answer {
            Ok(list) => list@,
            Err(_) => Seq::empty(),
        });
    }
}

/// Every candidate that any source answered with is matched over, at a place of
/// its own.
pub proof fn every_answer_is_matched_over(
    answers: Seq<SourceAnswer>,
    source: int,
    k: int,
    candidate: Candidate,
)
    requires
        offers(answers, source, k, candidate),
    ensures
        found(answers).contains(candidate),
        found(answers.take(source)).len() + k < found(answers).len(),
        found(answers)[found(answers.take(source)).len() + k] == candidate,
{
    let before = answers.take(source);
    let here = seq![answers[source]];
    let after = answers.skip(source + 1);
    assert(answers =~= before + (here + after));
    sources_are_pooled(here, after);
    sources_are_pooled(before, here + after);
    let at = found(before).len() + k;
    assert(found(answers)[at] == (found(here) + found(after))[k]);
    assert(found(here)[k] == candidate);
    assert(found(answers).contains(found(answers)[at]));
}

/// Nothing is matched over but what some source answered with.
pub proof fn nothing_else_is_matched_over(answers: Seq<SourceAnswer>, x: int)
    requires
        0 <= x < found(answers).len(),
    ensures
        exists|source: int, k: int| #[trigger]
            offers(answers, source, k, found(answers)[x]) && x == found(
                answers.take(source),
            ).len() + k,
    decreases answers.len(),
{
    let front = answers.drop_last();
    let n = answers.len() - 1;
    if x < found(front).len() {
        nothing_else_is_matched_over(front, x);
        let (source, k) = choose|source: int, k: int| #[trigger]
            offers(front, source, k, found(front)[x]) && x == found(front.take(source)).len() + k;
        assert(answers[source] == front[source]);
        assert(answers.take(source) =~= front.take(source));
        assert(found(answers)[x] == found(front)[x]);
        assert(offers(answers, source, k, found(answers)[x]));
    } else {
        let k = x - found(front).len();
        assert(answers.take(n) =~= front);
        assert(offers(answers, n, k, found(answers)[x]));
    }
}

/// Something failed where a source did, and all failed where every source did.
proof fn failures_are_counted(answers: Seq<SourceAnswer>)
    ensures
        failed(answers).len() <= answers.len(),
        failed(answers).len() > 0 <==> (exists|i: int|
            0 <= i < answers.len() && (#[trigger] answers[i]).answer is Err),
        failed(answers).len() == answers.len() <==> (forall|i: int|
            0 <= i < answers.len() ==> (#[trigger] answers[i]).answer is Err),
    decreases answers.len(),
{
    if answers.len() > 0 {
        let front = answers.drop_last();
        let n = answers.len() - 1;
        failures_are_counted(front);
        assert forall|i: int| 0 <= i < n implies #[trigger] answers[i] == front[i] by {}
        if exists|i: int| 0 <= i < answers.len() && (#[trigger] answers[i]).answer is Err {
            let i = choose|i: int| 0 <= i < answers.len() && (#[trigger] answers[i]).answer is Err;
            if i < n {
                assert(front[i].answer is Err);
            }
        }
        if failed(answers).len() > 0 {
            if answers[n].answer is Ok {
                let i = choose|i: int| 0 <= i < front.len() && (#[trigger] front[i]).answer is Err;
                assert(answers[i].answer is Err);
            }
        }
        if failed(answers).len() == answers.len() {
            assert forall|i: int| 0 <= i < answers.len() implies (
            #[trigger] answers[i]).answer is Err by {
                if i < n {
                    assert(front[i].answer is Err);
                }
            }
        }
        if forall|i: int| 0 <= i < answers.len() ==> (#[trigger] answers[i]).answer is Err {
            assert forall|i: int| 0 <= i < front.len() implies (
            #[trigger] front[i]).answer is Err by {
                assert(answers[i].answer is Err);
            }
            assert(answers[n].answer is Err);
        }
    }
}

/// A plan that is staged has every file of the torrent in order, each with a
/// library file of its exact length that a source answered with, and none below
/// the confidence that the policy asks for.
pub proof fn a_staged_plan_is_backed_by_the_sources(
    job: RepairJob,
    files: Seq<TorrentFile>,
    answers: Seq<SourceAnswer>,
    policy: SafetyPolicy,
    outcome: StepOutcome,
)
    requires
        matching_judged(job, files, answers, policy, outcome),
        outcome is Advance,
    ensures
        files.len() > 0,
        outcome matches StepOutcome::Advance { patch, .. } && {
            &&& patch.staging_dir matches Some(dir) && dir@ == "job-"@
                + crate::text::signed_decimal(job.id.0 as int)
            &&& patch.files matches Some(plan) && plan@.len() == files.len() && forall|n: int|
                0 <= n < files.len() ==> {
                    &&& (#[trigger] plan@[n]).torrent_path == files[n].path
                    &&& plan@[n].length == files[n].length
                    &&& plan@[n].materialized_as is None
                    &&& plan@[n].recheck_progress is None
                    &&& plan@[n].confidence matches Some(c) && c.rank()
                        >= policy.min_match_confidence.rank()
                    &&& exists|source: int, k: int, candidate: Candidate|
                        {
                            &&& #[trigger] offers(answers, source, k, candidate)
                            &&& candidate.size_bytes == files[n].length
                            &&& plan@[n].source == Some(candidate.path)
                        }
                }
        },
{
    let all = found(answers);
    let matched = crate::library::matching::matches_of(files, all);
    crate::repair::policy::only_a_whole_and_sure_plan_is_accepted(
        matched,
        crate::library::matching::misses_of(files, all),
        policy.min_match_confidence,
    );
    crate::library::matching::a_complete_plan_pairs_every_file(files, all);
    let plan = outcome->Advance_patch.files->0@;
    assert forall|n: int| 0 <= n < files.len() implies {
        &&& (#[trigger] plan[n]).torrent_path == files[n].path
        &&& plan[n].length == files[n].length
        &&& plan[n].materialized_as is None
        &&& plan[n].recheck_progress is None
        &&& plan[n].confidence matches Some(c) && c.rank() >= policy.min_match_confidence.rank()
        &&& exists|source: int, k: int, candidate: Candidate|
            {
                &&& #[trigger] offers(answers, source, k, candidate)
                &&& candidate.size_bytes == files[n].length
                &&& plan[n].source == Some(candidate.path)
            }
    } by {
        assert(plan[n] == chosen(matched[n]));
        assert(matched[n].confidence.rank() >= policy.min_match_confidence.rank());
        crate::library::matching::a_match_is_a_candidate(files[n], all);
        let x = choose|x: int|
            0 <= x < all.len() && crate::library::matching::right_size(
                files[n],
                #[trigger] all[x],
            ) && all[x].path == matched[n].source && all[x].origin == matched[n].origin;
        nothing_else_is_matched_over(answers, x);
        let (source, k) = choose|source: int, k: int| #[trigger]
            offers(answers, source, k, all[x]) && x == found(answers.take(source)).len() + k;
        assert(offers(answers, source, k, all[x]));
    }
}

/// A library file fits a file of the torrent: the length is the same, and so is
/// the name but for the case of its letters.
pub open spec fn fits(file: TorrentFile, candidate: Candidate) -> bool {
    candidate.size_bytes == file.length && crate::text::lowered(candidate.name())
        == crate::text::lowered(crate::text::fields(file.path@, '/').last())
}

/// Where every file of the torrent has exactly one library file that fits it,
/// whichever source that comes from, and the policy asks for no more than that,
/// the plan is staged with exactly those.
pub proof fn files_of_different_sources_make_one_plan(
    job: RepairJob,
    files: Seq<TorrentFile>,
    answers: Seq<SourceAnswer>,
    policy: SafetyPolicy,
    outcome: StepOutcome,
    source: Seq<int>,
    at: Seq<int>,
    picked: Seq<Candidate>,
)
    requires
        matching_judged(job, files, answers, policy, outcome),
        files.len() > 0,
        source.len() == files.len(),
        at.len() == files.len(),
        picked.len() == files.len(),
        policy.min_match_confidence is Ambiguous || policy.min_match_confidence is Probable,
        forall|n: int|
            0 <= n < files.len() ==> offers(answers, source[n], at[n], #[trigger] picked[n])
                && fits(files[n], picked[n]),
        forall|n: int, i: int, k: int, other: Candidate|
            0 <= n < files.len() && #[trigger] offers(answers, i, k, other) && fits(
                #[trigger] files[n],
                other,
            ) ==> i == source[n] && k == at[n],
    ensures
        outcome matches StepOutcome::Advance { patch, .. } && (patch.files matches Some(plan)
            && plan@.len() == files.len() && forall|n: int|
            0 <= n < files.len() ==> (#[trigger] plan@[n]).source == Some(picked[n].path)
                && plan@[n].confidence == Some(crate::library::MatchConfidence::Probable)),
{
    let all = found(answers);
    let matched = crate::library::matching::matches_of(files, all);
    let misses = crate::library::matching::misses_of(files, all);
    assert forall|n: int| 0 <= n < files.len() implies (crate::library::matching::judged(
        #[trigger] files[n],
        all,
    ) matches Ok(m) && m.source == picked[n].path && m.confidence is Probable) by {
        assert(offers(answers, source[n], at[n], picked[n]));
        every_answer_is_matched_over(answers, source[n], at[n], picked[n]);
        let x = found(answers.take(source[n])).len() + at[n];
        assert forall|y: int|
            0 <= y < all.len() && y != x && (#[trigger] all[y]).size_bytes
                == files[n].length implies crate::text::lowered(all[y].name())
            != crate::text::lowered(crate::text::fields(files[n].path@, '/').last()) by {
            nothing_else_is_matched_over(answers, y);
            let (i, k) = choose|i: int, k: int| #[trigger]
                offers(answers, i, k, all[y]) && y == found(answers.take(i)).len() + k;
            if fits(files[n], all[y]) {
                assert(i == source[n] && k == at[n]);
            }
        }
        crate::library::matching::the_only_file_of_the_right_name_and_length_is_chosen(
            files[n],
            all,
            x,
        );
    }
    if misses.len() > 0 {
        crate::library::matching::every_miss_is_a_file(files, all, 0);
    }
    crate::library::matching::a_complete_plan_pairs_every_file(files, all);
    assert(all.len() > 0) by {
        assert(offers(answers, source[0], at[0], picked[0]));
        every_answer_is_matched_over(answers, source[0], at[0], picked[0]);
    }
    assert forall|n: int| 0 <= n < matched.len() implies (#[trigger] matched[n]).confidence.rank()
        >= policy.min_match_confidence.rank() by {
        assert(crate::library::matching::judged(files[n], all) is Ok);
    }
    crate::repair::policy::only_a_whole_and_sure_plan_is_accepted(
        matched,
        misses,
        policy.min_match_confidence,
    );
    let plan = outcome->Advance_patch.files->0@;
    assert forall|n: int| 0 <= n < files.len() implies (#[trigger] plan[n]).source == Some(
        picked[n].path,
    ) && plan[n].confidence == Some(crate::library::MatchConfidence::Probable) by {
        assert(plan[n] == chosen(matched[n]));
        assert(crate::library::matching::judged(files[n], all) is Ok);
    }
}

/// The step is tried again exactly where no source answered with anything and
/// one failed, unless all of them failed and one is a stub: then the job is
/// parked over the stub, and over that only then.
pub proof fn matching_is_tried_again_only_where_nothing_answered(
    job: RepairJob,
    files: Seq<TorrentFile>,
    answers: Seq<SourceAnswer>,
    policy: SafetyPolicy,
    outcome: StepOutcome,
)
    requires
        matching_judged(job, files, answers, policy, outcome),
    ensures
        ({
            let nothing = forall|i: int, k: int, c: Candidate| !#[trigger] offers(answers, i, k, c);
            let some_failed = exists|i: int|
                0 <= i < answers.len() && (#[trigger] answers[i]).answer is Err;
            let all_failed = forall|i: int|
                0 <= i < answers.len() ==> (#[trigger] answers[i]).answer is Err;
            let stub = exists|i: int|
                0 <= i < answers.len() && (#[trigger] answers[i]).answer matches Err(
                    CandidateError::NotImplemented(_),
                );
            &&& outcome is Retry <==> nothing && some_failed && !(all_failed && stub)
            &&& (outcome matches StepOutcome::Review { reason, .. } && reason
                == ReviewReason::AdapterNotImplemented) <==> nothing && all_failed && stub
            &&& outcome !is Wait
            &&& outcome !is Rewind
        }),
{
    failures_are_counted(answers);
    if found(answers).len() > 0 {
        nothing_else_is_matched_over(answers, 0);
        let (i, k) = choose|i: int, k: int| #[trigger]
            offers(answers, i, k, found(answers)[0]) && 0 == found(answers.take(i)).len() + k;
        assert(offers(answers, i, k, found(answers)[0]));
    } else {
        assert forall|i: int, k: int, c: Candidate| !#[trigger] offers(answers, i, k, c) by {
            if offers(answers, i, k, c) {
                every_answer_is_matched_over(answers, i, k, c);
            }
        }
    }
}

/// A job is parked for want of candidates only where some file of the torrent
/// has a length that no source offered.
pub proof fn a_plan_is_held_only_over_what_no_source_could_settle(
    job: RepairJob,
    files: Seq<TorrentFile>,
    answers: Seq<SourceAnswer>,
    policy: SafetyPolicy,
    outcome: StepOutcome,
)
    requires
        matching_judged(job, files, answers, policy, outcome),
        files.len() > 0,
        outcome matches StepOutcome::Review { reason, .. } && reason == ReviewReason::NoCandidates,
    ensures
        exists|n: int|
            0 <= n < files.len() && forall|i: int, k: int, c: Candidate| #[trigger]
                offers(answers, i, k, c) ==> c.size_bytes != (#[trigger] files[n]).length,
{
    let all = found(answers);
    let misses = crate::library::matching::misses_of(files, all);
    crate::library::matching::every_file_is_accounted_for(files, all);
    crate::library::matching::every_miss_is_a_file(files, all, 0);
    let n = choose|n: int|
        0 <= n < files.len() && crate::library::matching::judged(#[trigger] files[n], all) == Err::<
            FileMatch,
            UnmatchedReason,
        >(misses[0].reason) && files[n].path == misses[0].torrent_path;
    crate::library::matching::a_file_without_candidates_has_none_of_its_length(files[n], all);
    assert forall|i: int, k: int, c: Candidate| #[trigger]
        offers(answers, i, k, c) implies c.size_bytes != files[n].length by {
        every_answer_is_matched_over(answers, i, k, c);
    }
}

/// A torrent without files on record parks the job, a store that cannot be read
/// is asked again, and otherwise every file on record is asked about, with its
/// own path and length, under the torrent's name.
pub proof fn every_file_on_record_is_asked_about(
    job: RepairJob,
    planned: Result<Vec<PlannedFile>, StoreError>,
    r: Result<CandidateQuery, StepOutcome>,
)
    requires
        query_made(job, planned, r),
    ensures
        planned matches Ok(files) ==> if files@.len() > 0 {
            r matches Ok(query) && query.torrent_name@ == job.torrent_name@ && query.files@.len()
                == files@.len() && forall|i: int|
                0 <= i < files@.len() ==> (#[trigger] query.files@[i]).path
                    == files@[i].torrent_path && query.files@[i].length == files@[i].length
        } else {
            r matches Err(StepOutcome::Review { reason, .. }) && reason
                == ReviewReason::TorrentUnreadable
        },
        planned is Err ==> (r matches Err(outcome) && outcome is Retry),
{
}

/// A job is parked over an ambiguity only where some file of the torrent has a
/// length that two library files have, of one source or of two.
pub proof fn a_plan_is_ambiguous_only_where_two_files_compete(
    job: RepairJob,
    files: Seq<TorrentFile>,
    answers: Seq<SourceAnswer>,
    policy: SafetyPolicy,
    outcome: StepOutcome,
)
    requires
        matching_judged(job, files, answers, policy, outcome),
        outcome matches StepOutcome::Review { reason, .. } && reason
            == ReviewReason::AmbiguousMatch,
    ensures
        exists|n: int, i: int, k: int, a: Candidate, j: int, l: int, b: Candidate|
            {
                &&& 0 <= n < files.len()
                &&& #[trigger] offers(answers, i, k, a)
                &&& #[trigger] offers(answers, j, l, b)
                &&& (i, k) != (j, l)
                &&& a.size_bytes == (#[trigger] files[n]).length
                &&& b.size_bytes == files[n].length
            },
{
    let all = found(answers);
    let misses = crate::library::matching::misses_of(files, all);
    crate::library::matching::every_miss_is_a_file(files, all, 0);
    let n = choose|n: int|
        0 <= n < files.len() && crate::library::matching::judged(#[trigger] files[n], all) == Err::<
            FileMatch,
            UnmatchedReason,
        >(misses[0].reason) && files[n].path == misses[0].torrent_path;
    crate::library::matching::a_file_without_candidates_has_none_of_its_length(files[n], all);
    let x = choose|x: int|
        0 <= x < all.len() && (#[trigger] all[x]).size_bytes == files[n].length;
    if forall|y: int|
        0 <= y < all.len() && y != x ==> (#[trigger] all[y]).size_bytes != files[n].length {
        crate::library::matching::the_only_file_of_the_right_length_is_chosen(files[n], all, x);
    }
    let y = choose|y: int|
        0 <= y < all.len() && y != x && (#[trigger] all[y]).size_bytes == files[n].length;
    nothing_else_is_matched_over(answers, x);
    nothing_else_is_matched_over(answers, y);
    let (i, k) = choose|i: int, k: int| #[trigger]
        offers(answers, i, k, all[x]) && x == found(answers.take(i)).len() + k;
    let (j, l) = choose|j: int, l: int| #[trigger]
        offers(answers, j, l, all[y]) && y == found(answers.take(j)).len() + l;
    assert(offers(answers, i, k, all[x]) && offers(answers, j, l, all[y]));
}

/// What is told of a plan: how many candidates there were, how many files got one,
/// each file that got none and why, and each source that failed.
pub proof fn what_is_told_of_a_plan(
    candidates: int,
    matched: Seq<FileMatch>,
    unmatched: Seq<UnmatchedFile>,
    failures: Seq<Doc>,
)
    ensures
        plan_doc(candidates, matched, unmatched, failures) == Doc::Object(
            seq!["candidates"@, "matched"@, "unmatched"@, "sources_failed"@],
            seq![
                Doc::Number(candidates),
                Doc::Number(matched.len() as int),
                Doc::List(unmatched.map_values(|file: UnmatchedFile| unmatched_doc(file))),
                Doc::List(failures),
            ],
        ),
        forall|file: UnmatchedFile| #[trigger]
            unmatched_doc(file) == Doc::Object(
                seq!["path"@, "reason"@],
                seq![Doc::Text(file.torrent_path@), reason_doc(file.reason)],
            ),
{
    let told = plan_doc(candidates, matched, unmatched, failures);
    assert(told->Object_0 =~= seq!["candidates"@, "matched"@, "unmatched"@, "sources_failed"@]);
    assert(told->Object_1 =~= seq![
        Doc::Number(candidates),
        Doc::Number(matched.len() as int),
        Doc::List(unmatched.map_values(|file: UnmatchedFile| unmatched_doc(file))),
        Doc::List(failures),
    ]);
    assert forall|file: UnmatchedFile| #[trigger] unmatched_doc(file) == Doc::Object(
        seq!["path"@, "reason"@],
        seq![Doc::Text(file.torrent_path@), reason_doc(file.reason)],
    ) by {
        assert(unmatched_doc(file)->Object_0 =~= seq!["path"@, "reason"@]);
        assert(unmatched_doc(file)->Object_1 =~= seq![
            Doc::Text(file.torrent_path@),
            reason_doc(file.reason),
        ]);
    }
}

/// Every source that failed is told of, in order, and no other.
pub proof fn every_failed_source_is_told_of(answers: Seq<SourceAnswer>, one: SourceAnswer)
    ensures
        failed(Seq::empty()).len() == 0,
        one.answer is Ok ==> failed(answers.push(one)) == failed(answers),
        one.answer matches Err(error) ==> failed(answers.push(one)) == failed(answers).push(
            failure_doc(one.label@, error),
        ),
        stubbed(answers.push(one)) <==> stubbed(answers) || (one.answer matches Err(
            CandidateError::NotImplemented(_),
        )),
{
    assert(answers.push(one).drop_last() =~= answers);
    let all = answers.push(one);
    if stubbed(answers) {
        let i = choose|i: int|
            0 <= i < answers.len() && (#[trigger] answers[i]).answer matches Err(
                CandidateError::NotImplemented(_),
            );
        assert(all[i] == answers[i]);
    }
    if one.answer matches Err(CandidateError::NotImplemented(_)) {
        assert(all[answers.len() as int] == one);
    }
    if stubbed(all) {
        let i = choose|i: int|
            0 <= i < all.len() && (#[trigger] all[i]).answer matches Err(
                CandidateError::NotImplemented(_),
            );
        if i < answers.len() {
            assert(answers[i] == all[i]);
        }
    }
}

} // verus!
