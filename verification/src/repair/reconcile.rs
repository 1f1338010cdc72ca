//! Startup reconciliation.
//!
//! The persisted state says what was believed when the worker was last running.
//! Reality, the download client and the staging directory, may have moved on
//! while it was down. Before doing any new work, every unfinished job is walked
//! back to the furthest state reality actually supports.
//!
//! Only ever backwards. Reconciliation never advances a job on the strength of
//! external state, because "the torrent is in the client" does not tell us that
//! *we* put it there with the data we think we staged.

use vstd::prelude::*;

use super::domain::{RepairJob, RepairState, Transition, TransitionReason};
use super::ports::{Applied, PlannedFile, StoreError, TransitionUpdate};
use crate::clock::Timestamp;
use crate::events::{Activity, ActivityKind};
use crate::json::{Doc, Json};
use crate::seeding::{ClientError, TorrentStatus};
use crate::staging::{MaterializationPlan, PlanItem, StagingError, StagingPresence};
use crate::torrent::InfoHash;

verus! {

#[derive(Clone, Copy, Debug, PartialEq, Eq, Structural)]
pub struct ReconcileSummary {
    pub leases_cleared: u64,
    pub jobs_examined: usize,
    pub jobs_rewound: usize,
}

impl Default for ReconcileSummary {
    fn default() -> (r: ReconcileSummary)
        ensures
            r == (ReconcileSummary { leases_cleared: 0, jobs_examined: 0, jobs_rewound: 0 }),
    {
        ReconcileSummary { leases_cleared: 0, jobs_examined: 0, jobs_rewound: 0 }
    }
}

/// What a reconciliation begins with.
pub open spec fn summary_begun(
    leases: Result<u64, StoreError>,
    jobs: Result<Vec<RepairJob>, StoreError>,
    r: ReconcileSummary,
) -> bool {
    &&& r.leases_cleared == match leases {
        Ok(cleared) => cleared,
        Err(_) => 0,
    }
    &&& r.jobs_examined == match jobs {
        Ok(list) => list@.len(),
        Err(_) => 0,
    }
    &&& r.jobs_rewound == 0
}

/// The summary after a rewind was recorded, or not.
pub open spec fn rewind_counted(
    was: ReconcileSummary,
    recorded: Result<Applied, StoreError>,
) -> ReconcileSummary {
    ReconcileSummary {
        jobs_rewound: if recorded is Ok {
            (was.jobs_rewound + 1) as usize
        } else {
            was.jobs_rewound
        },
        ..was
    }
}


impl ReconcileSummary {
    /// Begin with what clearing the leases and listing the jobs came to.
    pub fn begin(leases: &Result<u64, StoreError>, jobs: &Result<Vec<RepairJob>, StoreError>) -> (r:
        ReconcileSummary)
        ensures
            summary_begun(*leases, *jobs, r),
    {
        let mut summary = ReconcileSummary::default();
        match leases {
            Ok(cleared) => summary.leases_cleared = *cleared,
            Err(_) => {},
        }
        match jobs {
            Ok(list) => summary.jobs_examined = list.len(),
            Err(_) => {},
        }
        summary
    }

    /// What the feed is told of the reconciliation.
    pub fn activity(&self, at: Timestamp) -> (r: Activity)
        ensures
            r == (Activity {
                kind: ActivityKind::Reconcile,
                at: Some(at),
                rewound: self.jobs_rewound,
                ..crate::events::no_activity()
            }),
    {
        let mut activity = Activity::default();
        activity.kind = ActivityKind::Reconcile;
        activity.at = Some(at);
        activity.rewound = self.jobs_rewound;
        activity
    }

    /// Count a job whose rewind was recorded, or not.
    pub fn count(&mut self, recorded: &Result<Applied, StoreError>)
        requires
            old(self).jobs_rewound < usize::MAX,
        ensures
            *final(self) == rewind_counted(*old(self), *recorded),
    {
        match recorded {
            Ok(_) => self.jobs_rewound = self.jobs_rewound + 1,
            Err(_) => {},
        }
    }
}

/// The place of a state in the lifecycle. A state outside it comes after all.
pub open spec fn place(state: RepairState) -> int {
    match state.spec_rank() {
        Some(rank) => rank as int,
        None => usize::MAX as int,
    }
}

/// The earlier of two states.
pub open spec fn first_of(left: RepairState, right: RepairState) -> RepairState {
    if place(left) <= place(right) {
        left
    } else {
        right
    }
}

fn rank(state: RepairState) -> (r: usize)
    ensures
        r == place(state),
{
    match state.rank() {
        Some(rank) => rank,
        None => usize::MAX,
    }
}

fn earliest(left: RepairState, right: RepairState) -> (r: RepairState)
    ensures
        r == first_of(left, right),
{
    if rank(left) <= rank(right) {
        left
    } else {
        right
    }
}

/// How far a job is: where a parked one will resume, and the state of any
/// other.
pub open spec fn standing(job: RepairJob) -> RepairState {
    match (job.state, job.review_from_state) {
        (RepairState::AwaitingReview, Some(from)) => from,
        _ => job.state,
    }
}

fn how_far(job: &RepairJob) -> (r: RepairState)
    ensures
        r == standing(*job),
{
    match (job.state, job.review_from_state) {
        (RepairState::AwaitingReview, Some(from)) => from,
        _ => job.state,
    }
}

/// The torrent that the client is asked about, if any.
pub open spec fn asked_about(job: RepairJob) -> Option<InfoHash> {
    if place(standing(job)) >= place(RepairState::Injected) {
        job.info_hash
    } else {
        None
    }
}

/// The torrent to ask the client about: only a job past injection has one.
pub fn torrent_to_ask_about(job: &RepairJob) -> (r: Option<InfoHash>)
    ensures
        r == asked_about(*job),
{
    if rank(how_far(job)) >= rank(RepairState::Injected) {
        job.info_hash
    } else {
        None
    }
}

/// The item says where a planned file is to be found.
pub open spec fn looks_for(item: PlanItem, file: PlannedFile, dir: Seq<char>) -> bool {
    &&& item.source@ == match file.source {
        Some(source) => source@,
        None => Seq::empty(),
    }
    &&& item.destination@ == dir + seq!['/'] + file.torrent_path@
    &&& item.length == file.length
    &&& item.previous_strategy == file.materialized_as
}

/// There is something to look for on disk.
pub open spec fn looks_on_disk(
    job: RepairJob,
    files: Result<Vec<PlannedFile>, StoreError>,
) -> bool {
    &&& place(standing(job)) >= place(RepairState::Staged)
    &&& job.staging_dir is Some
    &&& files matches Ok(list) && list@.len() > 0
}

/// The plan looks for the files on record; or there is nothing to look for.
pub open spec fn plan_made(
    job: RepairJob,
    files: Result<Vec<PlannedFile>, StoreError>,
    r: Option<MaterializationPlan>,
) -> bool {
    match r {
        None => !looks_on_disk(job, files),
        Some(plan) => {
            &&& looks_on_disk(job, files)
            &&& plan.items@.len() == files->Ok_0@.len()
            &&& forall|i: int|
                0 <= i < plan.items@.len() ==> looks_for(
                    #[trigger] plan.items@[i],
                    files->Ok_0@[i],
                    job.staging_dir->0@,
                )
        },
    }
}

/// What to look for on disk: only a job past staging has anything there.
pub fn staging_plan(job: &RepairJob, files: &Result<Vec<PlannedFile>, StoreError>) -> (r: Option<
    MaterializationPlan,
>)
    ensures
        plan_made(*job, *files, r),
{
    if rank(how_far(job)) < rank(RepairState::Staged) {
        return None;
    }
    let staging_dir = match &job.staging_dir {
        Some(staging_dir) => staging_dir,
        None => return None,
    };
    let list = match files {
        Ok(list) => list,
        Err(_) => return None,
    };
    if list.len() == 0 {
        return None;
    }
    let mut items: Vec<PlanItem> = Vec::new();
    let mut i: usize = 0;
    while i < list.len()
        invariant
            i <= list@.len(),
            items@.len() == i,
            forall|k: int|
                0 <= k < i ==> looks_for(#[trigger] items@[k], list@[k], staging_dir@),
        decreases list@.len() - i,
    {
        // Only the destination and length matter for an inspection; the
        // source may well be gone, and that is the staging step's problem.
        let source = match &list[i].source {
            Some(source) => source.clone(),
            None => String::new(),
        };
        items.push(
            PlanItem {
                source,
                destination: list[i].torrent_path.under(staging_dir),
                length: list[i].length,
                previous_strategy: list[i].materialized_as,
            },
        );
        assert(looks_for(items@[i as int], list@[i as int], staging_dir@));
        i += 1;
    }
    Some(MaterializationPlan { items })
}

/// The client said that it does not have the torrent.
pub open spec fn gone(asked: Option<Result<Option<TorrentStatus>, ClientError>>) -> bool {
    asked matches Some(Ok(None))
}

/// The disk was looked at, and the staged data is not all there.
pub open spec fn lost(looked: Option<Result<StagingPresence, StagingError>>) -> bool {
    looked matches Some(Ok(presence)) && presence !is Complete
}

/// The furthest state that reality supports. What could not be asked or looked
/// at takes nothing away.
pub open spec fn supported(state: RepairState, gone: bool, lost: bool) -> RepairState {
    let with_client = if gone {
        first_of(state, RepairState::Staged)
    } else {
        state
    };
    if lost {
        first_of(with_client, RepairState::Matched)
    } else {
        with_client
    }
}

fn furthest(
    state: RepairState,
    asked: &Option<Result<Option<TorrentStatus>, ClientError>>,
    looked: &Option<Result<StagingPresence, StagingError>>,
) -> (r: RepairState)
    ensures
        r == supported(state, gone(*asked), lost(*looked)),
{
    let mut target = state;
    match asked {
        Some(Ok(None)) => target = earliest(target, RepairState::Staged),
        // Cannot tell, or it is there: leave the job where it is. The worker
        // will find out soon enough, and guessing here would be the unsafe
        // direction.
        _ => {},
    }
    match looked {
        Some(Ok(StagingPresence::Complete)) => {},
        Some(Ok(_)) => target = earliest(target, RepairState::Matched),
        _ => {},
    }
    target
}

/// What is told of a rewind.
pub open spec fn rewind_doc(from: RepairState, to: RepairState) -> Doc {
    crate::json::fact(
        "reason"@,
        Doc::Text("external state was behind the persisted state"@),
    ).with("from"@, Doc::Text(from.name())).with("to"@, Doc::Text(to.name()))
}

/// What reality as it was found comes to for a job.
pub open spec fn reconciled(
    job: RepairJob,
    asked: Option<Result<Option<TorrentStatus>, ClientError>>,
    looked: Option<Result<StagingPresence, StagingError>>,
    r: Option<(Transition, TransitionUpdate)>,
) -> bool {
    let target = supported(job.state, gone(asked), lost(looked));
    match r {
        None => {
            ||| target == job.state
            ||| !super::domain::legal(
                job.state,
                target,
                TransitionReason::Reconciliation,
                job.review_from_state,
            )
        },
        Some((t, update)) => {
            &&& target != job.state
            &&& super::domain::legal(
                job.state,
                target,
                TransitionReason::Reconciliation,
                job.review_from_state,
            )
            &&& t.spec_from() == job.state
            &&& t.spec_to() == target
            &&& t.spec_reason() == TransitionReason::Reconciliation
            &&& update.detail matches Some(told) && told.doc() == rewind_doc(job.state, target)
            &&& update.failure_reason is None
            &&& update.patch@ == super::ports::no_changes()
        },
    }
}

/// Where a job is rewound to, and what is recorded with that; `None` where it
/// stays. `asked` is the client's answer about the torrent to ask about, and
/// `looked` what the staging area holds of the plan.
pub fn reconcile_job(
    job: &RepairJob,
    asked: &Option<Result<Option<TorrentStatus>, ClientError>>,
    looked: &Option<Result<StagingPresence, StagingError>>,
) -> (r: Option<(Transition, TransitionUpdate)>)
    ensures
        reconciled(*job, *asked, *looked, r),
{
    let target = furthest(job.state, asked, looked);
    if target == job.state {
        return None;
    }
    match job.plan_transition(target, TransitionReason::Reconciliation) {
        Ok(transition) => {
            let detail = Json::fact(
                "reason",
                Json::text("external state was behind the persisted state"),
            ).with("from", Json::text(job.state.as_str())).with("to", Json::text(target.as_str()));
            Some((transition, TransitionUpdate::with_detail(detail)))
        },
        Err(_) => None,
    }
}

/// Where a parked job is to resume instead of where it would.
pub open spec fn corrected(
    job: RepairJob,
    asked: Option<Result<Option<TorrentStatus>, ClientError>>,
    looked: Option<Result<StagingPresence, StagingError>>,
) -> Option<RepairState> {
    if job.state is AwaitingReview && job.review_from_state is Some && supported(
        standing(job),
        gone(asked),
        lost(looked),
    ) != standing(job) {
        Some(supported(standing(job), gone(asked), lost(looked)))
    } else {
        None
    }
}

/// Where a parked job is to resume instead of where it would; `None` where
/// reality supports that, and for a job that is not parked. The job stays
/// parked: only an operator changes that.
pub fn corrected_resume_point(
    job: &RepairJob,
    asked: &Option<Result<Option<TorrentStatus>, ClientError>>,
    looked: &Option<Result<StagingPresence, StagingError>>,
) -> (r: Option<RepairState>)
    ensures
        r == corrected(*job, *asked, *looked),
{
    if job.state != RepairState::AwaitingReview || job.review_from_state.is_none() {
        return None;
    }
    let from = how_far(job);
    let target = furthest(from, asked, looked);
    if target == from {
        None
    } else {
        Some(target)
    }
}

/// Reconciliation only ever moves a repair backwards, and never one that is
/// parked or failed.
pub proof fn reconciliation_only_goes_back(
    state: RepairState,
    review_from: Option<RepairState>,
    gone: bool,
    lost: bool,
)
    requires
        supported(state, gone, lost) != state,
    ensures
        place(supported(state, gone, lost)) < place(state),
        super::domain::legal(
            state,
            supported(state, gone, lost),
            TransitionReason::Reconciliation,
            review_from,
        ) <==> state.spec_rank() is Some,
{
}

/// Where nothing is known to be gone or lost, every repair stays where it is.
pub proof fn not_knowing_moves_nothing(state: RepairState)
    ensures
        supported(state, false, false) == state,
{
}

/// Lost data sends a repair back at least as far as a lost torrent does, and
/// the order in which the two are found out does not matter.
pub proof fn lost_data_weighs_more(state: RepairState)
    ensures
        place(supported(state, true, true)) <= place(supported(state, true, false)),
        supported(state, true, true) == supported(state, false, true),
{
}

/// Staged files that were looked for and are not all there, none of them or some
/// of them, send every repair that had staged them back to staging; a repair
/// that had not is left alone.
pub proof fn missing_staged_files_are_staged_again(
    job: RepairJob,
    asked: Option<Result<Option<TorrentStatus>, ClientError>>,
    presence: StagingPresence,
    r: Option<(Transition, TransitionUpdate)>,
)
    requires
        reconciled(job, asked, Some(Ok(presence)), r),
        presence is Absent || presence is Incomplete,
    ensures
        (job.state is Staged || job.state is Injected || job.state is Rechecking
            || job.state is Verified || job.state is Seeding || job.state is Completed) ==> (
        r matches Some((t, _)) && t.spec_from() == job.state && t.spec_to()
            == RepairState::Matched && t.spec_reason() == TransitionReason::Reconciliation),
        (job.state is Discovered || job.state is TorrentFetched || job.state is Matched
            || job.state is AwaitingReview || job.state is Failed) ==> r is None,
{
}

/// A torrent that the client says it does not have is added again, from the
/// staged files, where they are all there or could not be looked for; a repair
/// that had not added it is left alone.
pub proof fn a_torrent_gone_from_the_client_is_added_again(
    job: RepairJob,
    looked: Option<Result<StagingPresence, StagingError>>,
    r: Option<(Transition, TransitionUpdate)>,
)
    requires
        reconciled(job, Some(Ok(None)), looked, r),
        looked matches Some(Ok(presence)) ==> presence is Complete,
    ensures
        (job.state is Injected || job.state is Rechecking || job.state is Verified
            || job.state is Seeding || job.state is Completed) ==> (r matches Some((t, _))
            && t.spec_from() == job.state && t.spec_to() == RepairState::Staged && t.spec_reason()
            == TransitionReason::Reconciliation),
        (job.state is Discovered || job.state is TorrentFetched || job.state is Matched
            || job.state is Staged || job.state is AwaitingReview || job.state is Failed)
            ==> r is None,
{
}

/// Where the client was not asked, could not answer or has the torrent, and the
/// staged files were not looked for, could not be, or are all there, no repair is
/// moved.
pub proof fn nothing_known_to_be_lost_moves_nothing(
    job: RepairJob,
    asked: Option<Result<Option<TorrentStatus>, ClientError>>,
    looked: Option<Result<StagingPresence, StagingError>>,
    r: Option<(Transition, TransitionUpdate)>,
)
    requires
        reconciled(job, asked, looked, r),
        asked matches Some(Ok(answer)) ==> answer is Some,
        looked matches Some(Ok(presence)) ==> presence is Complete,
    ensures
        r is None,
        corrected(job, asked, looked) is None,
{
}

/// A parked job that would resume with staged files that are not all there is to
/// resume by staging them; one whose torrent is gone, by adding it. One that
/// would resume before that is left alone, and so is one that is not parked.
pub proof fn a_parked_job_resumes_no_further_than_reality(
    job: RepairJob,
    asked: Option<Result<Option<TorrentStatus>, ClientError>>,
    looked: Option<Result<StagingPresence, StagingError>>,
)
    requires
        job.state is AwaitingReview,
        job.review_from_state is Some,
    ensures
        ({
            let from = job.review_from_state->0;
            let missing = looked matches Some(Ok(presence)) && (presence is Absent
                || presence is Incomplete);
            let removed = asked matches Some(Ok(answer)) && answer is None;
            let staged = from is Staged || from is Injected || from is Rechecking
                || from is Verified || from is Seeding;
            &&& missing && staged ==> corrected(job, asked, looked) == Some(RepairState::Matched)
            &&& removed && !missing && staged && from !is Staged ==> corrected(job, asked, looked)
                == Some(RepairState::Staged)
            &&& from is Discovered || from is TorrentFetched || from is Matched ==> corrected(
                job,
                asked,
                looked,
            ) is None
        }),
{
}

/// Only a repair that added its torrent has the client asked about it, a parked
/// one counting from where it would resume; and nothing is corrected for a
/// repair that is not parked.
pub proof fn the_client_is_asked_about_torrents_it_was_given(
    job: RepairJob,
    asked: Option<Result<Option<TorrentStatus>, ClientError>>,
    looked: Option<Result<StagingPresence, StagingError>>,
)
    ensures
        ({
            let at = if job.state is AwaitingReview && job.review_from_state is Some {
                job.review_from_state->0
            } else {
                job.state
            };
            &&& at is Injected || at is Rechecking || at is Verified || at is Seeding
                ==> asked_about(job) == job.info_hash
            &&& at is Discovered || at is TorrentFetched || at is Matched || at is Staged
                ==> asked_about(job) is None
        }),
        job.state !is AwaitingReview ==> corrected(job, asked, looked) is None,
{
}

/// A repair with staged files and a place for them has them all looked for, a
/// parked one counting from where it would resume; one that has not got that far
/// has none looked for.
pub proof fn staged_files_are_looked_for_once_staged(
    job: RepairJob,
    files: Result<Vec<PlannedFile>, StoreError>,
)
    ensures
        ({
            let at = if job.state is AwaitingReview && job.review_from_state is Some {
                job.review_from_state->0
            } else {
                job.state
            };
            &&& (at is Staged || at is Injected || at is Rechecking || at is Verified
                || at is Seeding) && job.staging_dir is Some && (files matches Ok(list)
                && list@.len() > 0) ==> looks_on_disk(job, files)
            &&& at is Discovered || at is TorrentFetched || at is Matched ==> !looks_on_disk(
                job,
                files,
            )
            &&& job.staging_dir is None || files is Err ==> !looks_on_disk(job, files)
        }),
{
}

/// What could not be cleared or listed counts as none, and only a rewind that was
/// recorded counts.
pub proof fn what_a_reconciliation_counts(
    leases: Result<u64, StoreError>,
    jobs: Result<Vec<RepairJob>, StoreError>,
    r: ReconcileSummary,
    recorded: Result<Applied, StoreError>,
)
    requires
        summary_begun(leases, jobs, r),
    ensures
        leases matches Ok(cleared) ==> r.leases_cleared == cleared,
        leases is Err ==> r.leases_cleared == 0,
        jobs matches Ok(list) ==> r.jobs_examined == list@.len(),
        jobs is Err ==> r.jobs_examined == 0,
        r.jobs_rewound == 0,
        recorded is Ok ==> rewind_counted(r, recorded).jobs_rewound == 1,
        recorded is Err ==> rewind_counted(r, recorded) == r,
        rewind_counted(r, recorded).jobs_examined == r.jobs_examined,
{
}

/// The files of a repair that got as far as staging are looked for in its own
/// directory, each under its own path and with its own length; of one that did
/// not get there, or has no directory or no files, nothing is looked for.
pub proof fn what_is_looked_for_on_disk(
    job: RepairJob,
    files: Result<Vec<PlannedFile>, StoreError>,
    r: Option<MaterializationPlan>,
)
    requires
        plan_made(job, files, r),
        job.state !is AwaitingReview,
    ensures
        r is Some <==> {
            &&& job.state is Staged || job.state is Injected || job.state is Rechecking
                || job.state is Verified || job.state is Seeding || job.state is Completed
                || job.state is Failed
            &&& job.staging_dir is Some
            &&& files matches Ok(list) && list@.len() > 0
        },
        r matches Some(plan) ==> plan.items@.len() == files->Ok_0@.len() && forall|i: int|
            0 <= i < plan.items@.len() ==> {
                &&& (#[trigger] plan.items@[i]).length == files->Ok_0@[i].length
                &&& plan.items@[i].destination@ == job.staging_dir->0@ + seq!['/']
                    + files->Ok_0@[i].torrent_path@
            },
{
}

} // verus!
