//! `Matched → Staged`: build the torrent's layout in the staging area.
//!
//! This is the step that touches the filesystem, so it is the step with the
//! most ways to refuse. It re-checks every source file's size immediately
//! before using it (the library may have changed since matching), and it
//! records which strategy each file actually got: the resume policy later
//! depends on knowing whether anything is hardlinked.

use vstd::prelude::*;
use vstd::string::*;

use super::outcome::{review_error, review_stub, StepOutcome};
use crate::json::{Doc, Json};
use crate::repair::domain::{RepairJob, ReviewReason};
use crate::repair::policy::SafetyPolicy;
use crate::repair::ports::{Changes, JobPatch, PlannedFile, StoreError};
use crate::staging::{
    MaterializationPlan, MaterializationStrategy, PlanItem, StagedFile, StagedLayout, StagingError,
};
use crate::torrent::SafeRelativePath;

verus! {

/// What is to be staged, where, and how.
#[derive(Debug, PartialEq, Eq)]
pub struct StagingRequest {
    pub staging_dir: SafeRelativePath,
    pub plan: MaterializationPlan,
    pub preference: Vec<MaterializationStrategy>,
}

/// The directory of a job below the staging root.
pub open spec fn job_dir(job: RepairJob) -> Seq<char> {
    match job.staging_dir {
        Some(dir) => dir@,
        None => crate::repair::domain::staging_dir_name(job.id),
    }
}

/// The item is how a planned file is staged in the directory.
pub open spec fn stages(item: PlanItem, file: PlannedFile, dir: Seq<char>) -> bool {
    &&& Some(item.source) == file.source
    &&& item.destination@ == dir + seq!['/'] + file.torrent_path@
    &&& item.length == file.length
    &&& item.previous_strategy == file.materialized_as
}

/// The first file that has no source is that one.
pub open spec fn first_unsourced(files: Seq<PlannedFile>, i: int) -> bool {
    &&& 0 <= i < files.len()
    &&& files[i].source is None
    &&& forall|k: int| 0 <= k < i ==> (#[trigger] files[k]).source is Some
}

/// What is told of a file without a source.
pub open spec fn unsourced_doc(file: PlannedFile) -> Doc {
    super::outcome::error_doc("file has no matched source"@).with(
        "path"@,
        Doc::Text(file.torrent_path@),
    )
}

/// The request stages what is planned for a job; or why there is none.
pub open spec fn request_made(
    job: RepairJob,
    planned: Result<Vec<PlannedFile>, StoreError>,
    policy: SafetyPolicy,
    r: Result<StagingRequest, StepOutcome>,
) -> bool {
    match (planned, r) {
        (Err(error), Err(outcome)) => outcome.retries(error.sentence()),
        (Err(_), Ok(_)) => false,
        (Ok(files), Ok(request)) => {
            &&& request.staging_dir@ == job_dir(job)
            &&& request.preference@ == policy.materialization.order()
            &&& request.preference@.len() > 0
            &&& request.plan.items@.len() == files@.len()
            &&& forall|i: int|
                0 <= i < files@.len() ==> stages(
                    #[trigger] request.plan.items@[i],
                    files@[i],
                    job_dir(job),
                )
        },
        (Ok(files), Err(outcome)) => {
            if exists|i: int| first_unsourced(files@, i) {
                exists|i: int| #[trigger]
                    first_unsourced(files@, i) && outcome.parks_with(
                        ReviewReason::AmbiguousMatch,
                        unsourced_doc(files@[i]),
                    )
            } else {
                policy.materialization.order().len() == 0 && outcome.parks_with(
                    ReviewReason::MaterializationUnavailable,
                    super::outcome::error_doc("configuration permits no materialization strategy"@),
                )
            }
        },
    }
}

/// What to stage for a job, or why nothing can be.
pub fn staging_request(
    job: &RepairJob,
    planned: &Result<Vec<PlannedFile>, StoreError>,
    policy: &SafetyPolicy,
) -> (r: Result<StagingRequest, StepOutcome>)
    ensures
        request_made(*job, *planned, *policy, r),
{
    let staging_dir = match &job.staging_dir {
        Some(dir) => dir.clone(),
        None => job.default_staging_dir(),
    };
    let files = match planned {
        Ok(files) => files,
        Err(error) => return Err(StepOutcome::retry(error.message())),
    };
    let mut items: Vec<PlanItem> = Vec::new();
    let mut i: usize = 0;
    while i < files.len()
        invariant
            i <= files@.len(),
            items@.len() == i,
            staging_dir@ == job_dir(*job),
            planned matches Ok(all) && all@ == files@,
            forall|k: int|
                0 <= k < i ==> stages(#[trigger] items@[k], files@[k], job_dir(*job)),
            forall|k: int| 0 <= k < i ==> (#[trigger] files@[k]).source is Some,
        decreases files@.len() - i,
    {
        let file = &files[i];
        let source = match &file.source {
            Some(source) => source.clone(),
            None => {
                // Matching promised every file a source. If one is missing the
                // plan is not what we think it is; a human should look.
                assert(first_unsourced(files@, i as int));
                return Err(
                    StepOutcome::review(
                        ReviewReason::AmbiguousMatch,
                        Json::fact("error", Json::text("file has no matched source")).with(
                            "path",
                            Json::text(file.torrent_path.as_str()),
                        ),
                    ),
                );
            },
        };
        items.push(
            PlanItem {
                source,
                destination: file.torrent_path.under(&staging_dir),
                length: file.length,
                previous_strategy: file.materialized_as,
            },
        );
        i += 1;
    }
    let preference = policy.materialization.preference();
    if preference.len() == 0 {
        return Err(
            review_error(
                ReviewReason::MaterializationUnavailable,
                "configuration permits no materialization strategy",
            ),
        );
    }
    Ok(StagingRequest { staging_dir, plan: MaterializationPlan { items }, preference })
}

/// The strategies as a list in brackets.
pub open spec fn titles(strategies: Seq<MaterializationStrategy>) -> Seq<char>
    decreases strategies.len(),
{
    if strategies.len() == 0 {
        Seq::empty()
    } else if strategies.len() == 1 {
        strategies[0].title()
    } else {
        titles(strategies.drop_last()) + ", "@ + strategies.last().title()
    }
}

fn list_titles(strategies: &Vec<MaterializationStrategy>) -> (r: String)
    ensures
        r@ == "["@ + titles(strategies@) + "]"@,
{
    let mut out = "[".to_owned();
    let mut i: usize = 0;
    while i < strategies.len()
        invariant
            i <= strategies@.len(),
            out@ == "["@ + titles(strategies@.take(i as int)),
        decreases strategies@.len() - i,
    {
        proof {
            assert(strategies@.take(i + 1).drop_last() =~= strategies@.take(i as int));
        }
        if i > 0 {
            out.append(", ");
        }
        out.append(strategies[i].to_title());
        proof {
            assert(out@ =~= "["@ + titles(strategies@.take(i + 1)));
        }
        i += 1;
    }
    assert(strategies@.take(i as int) =~= strategies@);
    out.append("]");
    out
}

/// The strategy that the file at a path got: the last one, if it is listed more
/// than once.
pub open spec fn strategy_at(files: Seq<StagedFile>, path: Seq<char>) -> Option<
    MaterializationStrategy,
>
    decreases files.len(),
{
    if files.len() == 0 {
        None
    } else if files.last().path@ == path {
        Some(files.last().strategy)
    } else {
        strategy_at(files.drop_last(), path)
    }
}

fn find_strategy(files: &Vec<StagedFile>, path: &SafeRelativePath) -> (r: Option<
    MaterializationStrategy,
>)
    ensures
        r == strategy_at(files@, path@),
{
    let mut i: usize = files.len();
    assert(files@.take(i as int) =~= files@);
    while i > 0
        invariant
            i <= files@.len(),
            strategy_at(files@, path@) == strategy_at(files@.take(i as int), path@),
        decreases i,
    {
        proof {
            assert(files@.take(i as int).drop_last() =~= files@.take(i - 1));
        }
        i -= 1;
        if files[i].path.is(path) {
            return Some(files[i].strategy);
        }
    }
    None
}

/// A planned file with the strategy that it got.
pub open spec fn staged(file: PlannedFile, layout: Seq<StagedFile>, dir: Seq<char>) -> PlannedFile {
    PlannedFile {
        materialized_as: strategy_at(layout, dir + seq!['/'] + file.torrent_path@),
        ..file
    }
}

/// What is told of a layout.
pub open spec fn layout_doc(dir: Seq<char>, layout: StagedLayout) -> Doc {
    crate::json::fact("staging_dir"@, Doc::Text(dir)).with(
        "strategy"@,
        Doc::text_or_null(
            match layout.riskiest() {
                Some(strategy) => Some(strategy.name()),
                None => None,
            },
        ),
    ).with(
        "aliases_library"@,
        Doc::Bool(
            crate::staging::domain::some_file_is(layout.files@, MaterializationStrategy::Hardlink),
        ),
    ).with("bytes"@, Doc::Number(crate::staging::domain::bytes_of(layout.files@)))
}

/// What staging comes to.
pub open spec fn staging_judged(
    files: Seq<PlannedFile>,
    request: StagingRequest,
    result: Result<StagedLayout, StagingError>,
    outcome: StepOutcome,
) -> bool {
    match result {
        Ok(layout) => outcome.advances(
            Some(layout_doc(request.staging_dir@, layout)),
            (Changes {
                staging_dir: Some(request.staging_dir@),
                materialization: layout.riskiest(),
                files: Some(
                    files.map_values(
                        |file: PlannedFile| staged(file, layout.files@, request.staging_dir@),
                    ),
                ),
                ..crate::repair::ports::no_changes()
            }),
        ),
        Err(StagingError::NotImplemented(details)) => outcome.parks_with(
            ReviewReason::AdapterNotImplemented,
            super::outcome::stub_doc(details),
        ),
        Err(error) => {
            let told = super::outcome::error_doc(error.sentence());
            match error {
                StagingError::StrategyUnavailable { .. } | StagingError::NoStrategyPermitted =>
                    outcome.parks_with(
                    ReviewReason::MaterializationUnavailable,
                    told.with(
                        "tried"@,
                        Doc::Text("["@ + titles(request.preference@) + "]"@),
                    ),
                ),
                StagingError::InsufficientSpace { .. } => outcome.parks_with(
                    ReviewReason::InsufficientStagingSpace,
                    told,
                ),
                StagingError::SourceMissing(_) | StagingError::SourceChanged { .. } =>
                    outcome.parks_with(ReviewReason::LibraryChanged, told),
                StagingError::UnsafePath { .. } => outcome.parks_with(
                    ReviewReason::UnsafeTorrentPaths,
                    told,
                ),
                _ => outcome.retries(error.sentence()),
            }
        },
    }
}

fn mark_staged(files: &Vec<PlannedFile>, layout: &StagedLayout, dir: &SafeRelativePath) -> (r: Vec<
    PlannedFile,
>)
    ensures
        r@ == files@.map_values(|file: PlannedFile| staged(file, layout.files@, dir@)),
{
    let mut out: Vec<PlannedFile> = Vec::new();
    let mut i: usize = 0;
    while i < files.len()
        invariant
            i <= files@.len(),
            out@ =~= files@.take(i as int).map_values(
                |file: PlannedFile| staged(file, layout.files@, dir@),
            ),
        decreases files@.len() - i,
    {
        let mut file = files[i].clone();
        file.materialized_as = find_strategy(&layout.files, &file.torrent_path.under(dir));
        out.push(file);
        i += 1;
    }
    assert(files@.take(i as int) =~= files@);
    out
}

/// Judge what staging the request came to.
pub fn stage_files(
    files: &Vec<PlannedFile>,
    request: StagingRequest,
    result: Result<StagedLayout, StagingError>,
) -> (r: StepOutcome)
    requires
        result matches Ok(layout) ==> crate::staging::domain::bytes_of(layout.files@) <= u64::MAX,
    ensures
        staging_judged(files@, request, result, r),
{
    let layout = match result {
        Ok(layout) => layout,
        Err(error) => {
            return match &error {
                StagingError::NotImplemented(details) => review_stub(details),
                StagingError::StrategyUnavailable { .. } | StagingError::NoStrategyPermitted => {
                    StepOutcome::review(
                        ReviewReason::MaterializationUnavailable,
                        Json::fact("error", Json::Text(error.message())).with(
                            "tried",
                            Json::Text(list_titles(&request.preference)),
                        ),
                    )
                },
                StagingError::InsufficientSpace { .. } => review_error(
                    ReviewReason::InsufficientStagingSpace,
                    error.message().as_str(),
                ),
                StagingError::SourceMissing(_) | StagingError::SourceChanged { .. } => review_error(
                    ReviewReason::LibraryChanged,
                    error.message().as_str(),
                ),
                StagingError::UnsafePath { .. } => review_error(
                    ReviewReason::UnsafeTorrentPaths,
                    error.message().as_str(),
                ),
                StagingError::Io(_) => StepOutcome::retry(error.message()),
            };
        },
    };
    let summary = layout.summary_strategy();
    let name = match summary {
        Some(strategy) => Some(strategy.as_str()),
        None => None,
    };
    let detail = Json::fact("staging_dir", Json::text(request.staging_dir.as_str())).with(
        "strategy",
        Json::text_or_null(name),
    ).with("aliases_library", Json::Bool(layout.aliases_library_files())).with(
        "bytes",
        Json::Unsigned(layout.total_bytes()),
    );
    let mut patch = JobPatch::default();
    patch.materialization = summary;
    patch.files = Some(mark_staged(files, &layout, &request.staging_dir));
    patch.staging_dir = Some(request.staging_dir);
    StepOutcome::advance_with(detail, patch)
}

/// A repair whose staging aliases the library anywhere is recorded as one that
/// does.
pub proof fn an_aliasing_layout_is_recorded_as_aliasing(
    files: Seq<PlannedFile>,
    request: StagingRequest,
    layout: StagedLayout,
    outcome: StepOutcome,
)
    requires
        staging_judged(files, request, Ok::<StagedLayout, StagingError>(layout), outcome),
        crate::staging::domain::some_file_is(layout.files@, MaterializationStrategy::Hardlink),
    ensures
        outcome matches StepOutcome::Advance { patch, .. } && crate::repair::policy::may_alias(
            patch@.materialization,
        ),
{
}

/// Some file without a source means that there is a first one.
proof fn there_is_a_first_unsourced(files: Seq<PlannedFile>, n: int)
    requires
        0 <= n < files.len(),
        files[n].source is None,
    ensures
        exists|i: int| first_unsourced(files, i),
    decreases n,
{
    if forall|k: int| 0 <= k < n ==> (#[trigger] files[k]).source is Some {
        assert(first_unsourced(files, n));
    } else {
        let k = choose|k: int| 0 <= k < n && (#[trigger] files[k]).source is None;
        there_is_a_first_unsourced(files, k);
    }
}

/// A plan is staged exactly where the policy permits some way to and every file
/// has a library file chosen for it: all of them, each from that library file to
/// its own path in the job's directory. A file without one parks the job, and so
/// does a policy that permits nothing.
pub proof fn a_plan_is_staged_whole_or_not_at_all(
    job: RepairJob,
    files: Vec<PlannedFile>,
    policy: SafetyPolicy,
    r: Result<StagingRequest, StepOutcome>,
)
    requires
        request_made(job, Ok(files), policy, r),
    ensures
        ({
            let chosen = forall|i: int|
                0 <= i < files@.len() ==> (#[trigger] files@[i]).source is Some;
            let permitted = policy.materialization.prefer_reflink
                || policy.materialization.allow_copy || policy.materialization.allow_hardlink;
            &&& r is Ok ==> chosen && permitted
            &&& chosen && permitted ==> r is Ok
            &&& !chosen ==> (r matches Err(StepOutcome::Review { reason, .. }) && reason
                == ReviewReason::AmbiguousMatch)
            &&& chosen && !permitted ==> (r matches Err(StepOutcome::Review { reason, .. })
                && reason == ReviewReason::MaterializationUnavailable)
        }),
        r matches Ok(request) ==> {
            let dir = match job.staging_dir {
                Some(dir) => dir@,
                None => "job-"@ + crate::text::signed_decimal(job.id.0 as int),
            };
            &&& request.staging_dir@ == dir
            &&& request.plan.items@.len() == files@.len()
            &&& forall|i: int|
                0 <= i < files@.len() ==> {
                    &&& Some((#[trigger] request.plan.items@[i]).source) == files@[i].source
                    &&& request.plan.items@[i].destination@ == dir + seq!['/']
                        + files@[i].torrent_path@
                    &&& request.plan.items@[i].length == files@[i].length
                    &&& request.plan.items@[i].previous_strategy == files@[i].materialized_as
                }
        },
{
    if r is Ok {
        let items = r->Ok_0.plan.items@;
        assert forall|i: int| 0 <= i < files@.len() implies (
        #[trigger] files@[i]).source is Some by {
            assert(stages(items[i], files@[i], job_dir(job)));
        }
    } else {
        if exists|i: int| 0 <= i < files@.len() && (#[trigger] files@[i]).source is None {
            let n = choose|i: int| 0 <= i < files@.len() && (#[trigger] files@[i]).source is None;
            there_is_a_first_unsourced(files@, n);
        }
        if exists|i: int| first_unsourced(files@, i) {
            let i = choose|i: int| first_unsourced(files@, i);
            assert(files@[i].source is None);
        }
    }
}

/// Staging that failed is tried again only where reading or writing failed. No
/// room, no way to do it, a library file that is gone or changed, an unsafe
/// path and a stub each park the job, and each over itself.
pub proof fn what_failed_staging_comes_to(
    files: Seq<PlannedFile>,
    request: StagingRequest,
    error: StagingError,
    outcome: StepOutcome,
)
    requires
        staging_judged(files, request, Err(error), outcome),
    ensures
        outcome is Retry <==> error is Io,
        outcome !is Retry ==> (outcome matches StepOutcome::Review { reason, .. } && {
            &&& reason == ReviewReason::InsufficientStagingSpace <==> error is InsufficientSpace
            &&& reason == ReviewReason::LibraryChanged <==> error is SourceMissing
                || error is SourceChanged
            &&& reason == ReviewReason::UnsafeTorrentPaths <==> error is UnsafePath
            &&& reason == ReviewReason::AdapterNotImplemented <==> error is NotImplemented
            &&& reason == ReviewReason::MaterializationUnavailable <==> error is StrategyUnavailable
                || error is NoStrategyPermitted
        }),
{
}

/// The strategy on record for a path is that of a file staged at that path, and
/// there is one where a file was.
pub proof fn a_strategy_on_record_was_used(files: Seq<StagedFile>, path: Seq<char>)
    ensures
        strategy_at(files, path) matches Some(strategy) ==> exists|i: int|
            0 <= i < files.len() && (#[trigger] files[i]).path@ == path && files[i].strategy
                == strategy && forall|j: int|
                i < j < files.len() ==> (#[trigger] files[j]).path@ != path,
        strategy_at(files, path) is None <==> (forall|i: int|
            0 <= i < files.len() ==> (#[trigger] files[i]).path@ != path),
    decreases files.len(),
{
    if files.len() > 0 {
        let front = files.drop_last();
        let n = files.len() - 1;
        a_strategy_on_record_was_used(front, path);
        assert forall|i: int| 0 <= i < n implies #[trigger] files[i] == front[i] by {}
        if files.last().path@ == path {
            assert(files[n].path@ == path);
        } else {
            if strategy_at(files, path) is Some {
                let i = choose|i: int|
                    0 <= i < front.len() && (#[trigger] front[i]).path@ == path
                        && front[i].strategy == strategy_at(front, path)->0 && forall|j: int|
                        i < j < front.len() ==> (#[trigger] front[j]).path@ != path;
                assert(files[i].path@ == path);
                assert forall|j: int| i < j < files.len() implies (
                #[trigger] files[j]).path@ != path by {
                    if j < n {
                        assert(front[j].path@ != path);
                    }
                }
            } else {
                assert forall|i: int| 0 <= i < files.len() implies (
                #[trigger] files[i]).path@ != path by {
                    if i < n {
                        assert(front[i].path@ != path);
                    }
                }
            }
            if forall|i: int| 0 <= i < files.len() ==> (#[trigger] files[i]).path@ != path {
                assert forall|i: int| 0 <= i < front.len() implies (
                #[trigger] front[i]).path@ != path by {
                    assert(files[i].path@ != path);
                }
            }
        }
    }
}

/// What was staged always advances the job, with its directory, and with every
/// planned file as it was but for the strategy that the file at its path in that
/// directory got.
pub proof fn staged_files_keep_their_plan(
    files: Seq<PlannedFile>,
    request: StagingRequest,
    layout: StagedLayout,
    outcome: StepOutcome,
)
    requires
        staging_judged(files, request, Ok(layout), outcome),
    ensures
        outcome matches StepOutcome::Advance { patch, .. } && {
            &&& patch.staging_dir matches Some(dir) && dir@ == request.staging_dir@
            &&& patch.files matches Some(kept) && kept@.len() == files.len() && forall|i: int|
                0 <= i < kept@.len() ==> {
                    &&& (#[trigger] kept@[i]).torrent_path == files[i].torrent_path
                    &&& kept@[i].length == files[i].length
                    &&& kept@[i].source == files[i].source
                    &&& kept@[i].confidence == files[i].confidence
                    &&& kept@[i].materialized_as == strategy_at(
                        layout.files@,
                        request.staging_dir@ + seq!['/'] + files[i].torrent_path@,
                    )
                }
            &&& patch.info_hash is None
            &&& patch.torrent_file is None
            &&& patch.resume_approved is None
        },
        layout.files@.len() == 0 ==> (outcome matches StepOutcome::Advance { patch, .. }
            && patch.materialization is None),
        (exists|i: int|
            0 <= i < layout.files@.len() && (#[trigger] layout.files@[i]).strategy is Hardlink)
            ==> (outcome matches StepOutcome::Advance { patch, .. } && patch.materialization
            == Some(MaterializationStrategy::Hardlink)),
{
}

/// What is told of a staged layout: where it is, the riskiest strategy, whether it
/// shares anything with the library, and how large it is.
pub proof fn what_is_told_of_a_layout(dir: Seq<char>, layout: StagedLayout)
    ensures
        layout_doc(dir, layout) == Doc::Object(
            seq!["staging_dir"@, "strategy"@, "aliases_library"@, "bytes"@],
            seq![
                Doc::Text(dir),
                match layout.riskiest() {
                    Some(strategy) => Doc::Text(strategy.name()),
                    None => Doc::Null,
                },
                Doc::Bool(
                    crate::staging::domain::some_file_is(
                        layout.files@,
                        MaterializationStrategy::Hardlink,
                    ),
                ),
                Doc::Number(crate::staging::domain::bytes_of(layout.files@)),
            ],
        ),
{
    let told = layout_doc(dir, layout);
    let aliases = crate::staging::domain::some_file_is(
        layout.files@,
        MaterializationStrategy::Hardlink,
    );
    assert(told->Object_0 =~= seq!["staging_dir"@, "strategy"@, "aliases_library"@, "bytes"@]);
    assert(told->Object_1 =~= seq![
        Doc::Text(dir),
        match layout.riskiest() {
            Some(strategy) => Doc::Text(strategy.name()),
            None => Doc::Null,
        },
        Doc::Bool(aliases),
        Doc::Number(crate::staging::domain::bytes_of(layout.files@)),
    ]);
}

} // verus!
