//! The swappable runtime: reload configuration without restarting the process.
//!
//! Not a new mechanism: the existing startup sequence, run again, against
//! durable state that was designed for exactly this. What a reload may change,
//! and what it has to leave alone, is decided here.

use vstd::prelude::*;
use vstd::string::*;

use crate::config::settings::TrackerConfig;
use crate::config::{Config, ConfigError};
use crate::paths::same_path;
use crate::repair::domain::RepairJob;
use crate::repair::ports::StoreError;
use crate::text::{decimal_of, same};

verus! {

#[derive(Debug, PartialEq, Eq)]
pub enum ReloadError {
    Config(ConfigError),
    /// A change this reload would need to make cannot be applied safely. The
    /// config file is left exactly as it was read.
    Refused(String),
    /// Building the new generation failed. The old runtime and its worker are
    /// untouched: building before stopping is what makes this a pure no-op.
    Build(String),
}

impl ReloadError {
    /// The sentence shown for it.
    pub open spec fn sentence(self) -> Seq<char> {
        match self {
            ReloadError::Config(error) => error.sentence(),
            ReloadError::Refused(why) => why@,
            ReloadError::Build(why) => why@,
        }
    }

    pub fn message(&self) -> (r: String)
        ensures
            r@ == self.sentence(),
    {
        match self {
            ReloadError::Config(error) => error.message(),
            ReloadError::Refused(why) => why.clone(),
            ReloadError::Build(why) => why.clone(),
        }
    }
}

/// What a successful reload could and could not apply.
#[derive(Debug, PartialEq, Eq)]
pub struct Applied {
    /// Keys the new file changed that a reload never applies, because the
    /// database connection and the bound listener both outlive every reload by
    /// construction. Reported so an operator can be told that a restart is
    /// still needed, rather than silently ignoring the change.
    pub restart_needed: Vec<&'static str>,
}

/// The keys that need a restart.
pub open spec fn needs_restart(old: Config, new: Config) -> Seq<Seq<char>> {
    (if crate::paths::components(new.database.path@) != crate::paths::components(
        old.database.path@,
    ) {
        seq!["database.path"@]
    } else {
        Seq::empty()
    }) + (if new.server.bind_address@ != old.server.bind_address@ {
        seq!["server.bind_address"@]
    } else {
        Seq::empty()
    })
}

impl Applied {
    pub fn diff(old: &Config, new: &Config) -> (r: Applied)
        ensures
            r.restart_needed@.map_values(|key: &'static str| key@) == needs_restart(*old, *new),
    {
        let mut restart_needed: Vec<&'static str> = Vec::new();
        if !same_path(new.database.path.as_str(), old.database.path.as_str()) {
            restart_needed.push("database.path");
        }
        if !same(new.server.bind_address.as_str(), old.server.bind_address.as_str()) {
            restart_needed.push("server.bind_address");
        }
        assert(restart_needed@.map_values(|key: &'static str| key@) =~= needs_restart(*old, *new));
        Applied { restart_needed }
    }
}

/// How many repairs have data staged.
pub open spec fn staged_count(jobs: Seq<RepairJob>) -> nat
    decreases jobs.len(),
{
    if jobs.len() == 0 {
        0
    } else {
        staged_count(jobs.drop_last()) + if jobs.last().staging_dir is Some {
            1nat
        } else {
            0
        }
    }
}

/// How many repairs belong to a tracker.
pub open spec fn tracker_count(jobs: Seq<RepairJob>, tracker: Seq<char>) -> nat
    decreases jobs.len(),
{
    if jobs.len() == 0 {
        0
    } else {
        tracker_count(jobs.drop_last(), tracker) + if jobs.last().tracker@ == tracker {
            1nat
        } else {
            0
        }
    }
}

/// Some tracker has that id.
pub open spec fn has_tracker(trackers: Seq<TrackerConfig>, id: Seq<char>) -> bool {
    exists|i: int| 0 <= i < trackers.len() && (#[trigger] trackers[i]).id@ == id
}

/// The staging root moves away from where something may be staged.
pub open spec fn root_moves(old: Config, new: Config) -> bool {
    old.staging.root@.len() > 0 && crate::paths::components(new.staging.root@)
        != crate::paths::components(old.staging.root@)
}

/// The tracker is gone, and repairs that belong to it are unfinished.
pub open spec fn orphans(old: Config, new: Config, jobs: Seq<RepairJob>, i: int) -> bool {
    &&& 0 <= i < old.trackers@.len()
    &&& !has_tracker(new.trackers@, old.trackers@[i].id@)
    &&& tracker_count(jobs, old.trackers@[i].id@) > 0
}

/// Some root of the old ones is missing among the new ones.
pub open spec fn narrows(old: Seq<String>, new: Seq<String>) -> bool {
    exists|i: int| 0 <= i < old.len() && !has_root(new, (#[trigger] old[i])@)
}

/// The root is listed.
pub open spec fn has_root(roots: Seq<String>, root: Seq<char>) -> bool {
    exists|i: int|
        0 <= i < roots.len() && crate::paths::components((#[trigger] roots[i])@)
            == crate::paths::components(root)
}

/// The sentence about a staging root that moves.
pub open spec fn root_sentence(staged: nat) -> Seq<char> {
    "staging.root cannot change while "@ + crate::text::decimal(staged)
        + " unfinished repair(s) have data staged under the current root; finish or abandon them first"@
}

/// The sentence about a tracker that is gone.
pub open spec fn tracker_sentence(id: Seq<char>, affected: nat) -> Seq<char> {
    "tracker `"@ + id + "` cannot be removed or renamed while it has "@ + crate::text::decimal(
        affected,
    ) + " unfinished repair(s)"@
}

/// The sentence about library roots that are narrowed.
pub open spec fn roots_sentence(unfinished: nat) -> Seq<char> {
    "library.roots cannot be narrowed while "@ + crate::text::decimal(unfinished)
        + " unfinished repair(s) exist"@
}

/// What a reload to another configuration comes to, given the unfinished
/// repairs and whether one of them is leased.
pub open spec fn refusals_checked(
    old: Config,
    new: Config,
    jobs: Seq<RepairJob>,
    leased: Result<bool, StoreError>,
    r: Result<(), ReloadError>,
) -> bool {
    if root_moves(old, new) && staged_count(jobs) > 0 {
        r matches Err(ReloadError::Refused(why)) && why@ == root_sentence(staged_count(jobs))
    } else if exists|i: int| orphans(old, new, jobs, i) {
        r matches Err(ReloadError::Refused(why)) && exists|i: int| #[trigger]
            orphans(old, new, jobs, i) && why@ == tracker_sentence(
                old.trackers@[i].id@,
                tracker_count(jobs, old.trackers@[i].id@),
            )
    } else if jobs.len() > 0 && narrows(old.library.roots@, new.library.roots@) {
        r matches Err(ReloadError::Refused(why)) && why@ == roots_sentence(jobs.len())
    } else if new.worker.owner@ != old.worker.owner@ {
        match leased {
            Err(error) => r matches Err(ReloadError::Refused(why)) && why@
                == "could not check active leases: "@ + error.sentence(),
            Ok(true) => r matches Err(ReloadError::Refused(why)) && why@
                == "worker.owner cannot change while a repair is leased"@,
            Ok(false) => r is Ok,
        }
    } else {
        r is Ok
    }
}

fn count_staged(jobs: &Vec<RepairJob>) -> (r: usize)
    ensures
        r == staged_count(jobs@),
{
    let mut count: usize = 0;
    let mut i: usize = 0;
    while i < jobs.len()
        invariant
            i <= jobs@.len(),
            count <= i,
            count == staged_count(jobs@.take(i as int)),
        decreases jobs@.len() - i,
    {
        assert(jobs@.take(i + 1).drop_last() =~= jobs@.take(i as int));
        if jobs[i].staging_dir.is_some() {
            count = count + 1;
        }
        i += 1;
    }
    assert(jobs@.take(i as int) =~= jobs@);
    count
}

fn count_of_tracker(jobs: &Vec<RepairJob>, tracker: &str) -> (r: usize)
    ensures
        r == tracker_count(jobs@, tracker@),
{
    let mut count: usize = 0;
    let mut i: usize = 0;
    while i < jobs.len()
        invariant
            i <= jobs@.len(),
            count <= i,
            count == tracker_count(jobs@.take(i as int), tracker@),
        decreases jobs@.len() - i,
    {
        assert(jobs@.take(i + 1).drop_last() =~= jobs@.take(i as int));
        if same(jobs[i].tracker.as_str(), tracker) {
            count = count + 1;
        }
        i += 1;
    }
    assert(jobs@.take(i as int) =~= jobs@);
    count
}

fn is_configured(trackers: &Vec<TrackerConfig>, id: &str) -> (r: bool)
    ensures
        r == has_tracker(trackers@, id@),
{
    let mut i: usize = 0;
    while i < trackers.len()
        invariant
            i <= trackers@.len(),
            forall|k: int| 0 <= k < i ==> (#[trigger] trackers@[k]).id@ != id@,
        decreases trackers@.len() - i,
    {
        if same(trackers[i].id.as_str(), id) {
            return true;
        }
        i += 1;
    }
    false
}

fn lists_root(roots: &Vec<String>, root: &str) -> (r: bool)
    ensures
        r == has_root(roots@, root@),
{
    let mut i: usize = 0;
    while i < roots.len()
        invariant
            i <= roots@.len(),
            forall|k: int|
                0 <= k < i ==> crate::paths::components((#[trigger] roots@[k])@)
                    != crate::paths::components(root@),
        decreases roots@.len() - i,
    {
        if same_path(roots[i].as_str(), root) {
            return true;
        }
        i += 1;
    }
    false
}

fn is_narrowed(old: &Vec<String>, new: &Vec<String>) -> (r: bool)
    ensures
        r == narrows(old@, new@),
{
    let mut i: usize = 0;
    while i < old.len()
        invariant
            i <= old@.len(),
            forall|k: int| 0 <= k < i ==> has_root(new@, (#[trigger] old@[k])@),
        decreases old@.len() - i,
    {
        if !lists_root(new, old[i].as_str()) {
            return true;
        }
        i += 1;
    }
    false
}

/// The first tracker that is gone with unfinished repairs.
fn find_orphans(old: &Config, new: &Config, jobs: &Vec<RepairJob>) -> (r: Option<usize>)
    ensures
        match r {
            Some(i) => orphans(*old, *new, jobs@, i as int),
            None => forall|i: int| !orphans(*old, *new, jobs@, i),
        },
{
    let mut i: usize = 0;
    while i < old.trackers.len()
        invariant
            i <= old.trackers@.len(),
            forall|k: int| 0 <= k < i ==> !orphans(*old, *new, jobs@, k),
        decreases old.trackers@.len() - i,
    {
        let id = old.trackers[i].id.as_str();
        if !is_configured(&new.trackers, id) && count_of_tracker(jobs, id) > 0 {
            return Some(i);
        }
        i += 1;
    }
    None
}

/// Refuse a change that a reload cannot apply safely. Checked before anything
/// is built or written: these are refusals, not warnings.
pub fn check_refusals(
    old: &Config,
    new: &Config,
    unfinished: &Vec<RepairJob>,
    leased: &Result<bool, StoreError>,
) -> (r: Result<(), ReloadError>)
    ensures
        refusals_checked(*old, *new, unfinished@, *leased, r),
{
    // The staging directory of a job is resolved against the *current* root;
    // changing the root silently relocates every job that already has one.
    // Exempt when the *old* root was itself unset: nothing can be staged then.
    if !old.staging.root.as_str().is_empty() && !same_path(
        new.staging.root.as_str(),
        old.staging.root.as_str(),
    ) {
        let staged: usize = count_staged(unfinished);
        if staged > 0 {
            let mut why = "staging.root cannot change while ".to_owned();
            why.append(decimal_of(staged as u128).as_str());
            why.append(
                " unfinished repair(s) have data staged under the current root; finish or abandon them first",
            );
            return Err(ReloadError::Refused(why));
        }
    }
    // Removing or renaming a tracker does not orphan its jobs so much as create
    // a second job for the same torrent under the new id.
    match find_orphans(old, new, unfinished) {
        Some(i) => {
            let id = old.trackers[i].id.as_str();
            let mut why = "tracker `".to_owned();
            why.append(id);
            why.append("` cannot be removed or renamed while it has ");
            why.append(decimal_of(count_of_tracker(unfinished, id) as u128).as_str());
            why.append(" unfinished repair(s)");
            assert(orphans(*old, *new, unfinished@, i as int));
            return Err(ReloadError::Refused(why));
        },
        None => {},
    }
    // Removing a library root and pointing the staging root inside it is
    // self-consistent, and would then write inside the media tree.
    if unfinished.len() > 0 && is_narrowed(&old.library.roots, &new.library.roots) {
        let mut why = "library.roots cannot be narrowed while ".to_owned();
        why.append(decimal_of(unfinished.len() as u128).as_str());
        why.append(" unfinished repair(s) exist");
        return Err(ReloadError::Refused(why));
    }
    // Stale leases are cleared by owner; changing it out from under a leased
    // job would leave that job locked until its lease expires.
    if !same(new.worker.owner.as_str(), old.worker.owner.as_str()) {
        match leased {
            Err(error) => {
                let mut why = "could not check active leases: ".to_owned();
                why.append(error.message().as_str());
                return Err(ReloadError::Refused(why));
            },
            Ok(true) => return Err(
                ReloadError::Refused(
                    "worker.owner cannot change while a repair is leased".to_owned(),
                ),
            ),
            Ok(false) => {},
        }
    }
    Ok(())
}

/// Whether a reload to another configuration may go on. Where the unfinished
/// repairs cannot be listed, it may not.
pub fn may_reload(
    old: &Config,
    new: &Config,
    unfinished: &Result<Vec<RepairJob>, StoreError>,
    leased: &Result<bool, StoreError>,
) -> (r: Result<(), ReloadError>)
    ensures
        match *unfinished {
            Ok(jobs) => refusals_checked(*old, *new, jobs@, *leased, r),
            Err(error) => r matches Err(ReloadError::Refused(why)) && why@
                == "could not check in-flight repairs before reloading: "@ + error.sentence(),
        },
{
    match unfinished {
        Ok(jobs) => check_refusals(old, new, jobs, leased),
        Err(error) => {
            let mut why = "could not check in-flight repairs before reloading: ".to_owned();
            why.append(error.message().as_str());
            Err(ReloadError::Refused(why))
        },
    }
}

/// With no unfinished repairs, only a change of the owner under a lease can be
/// refused.
pub proof fn nothing_unfinished_refuses_nothing(
    old: Config,
    new: Config,
    leased: Result<bool, StoreError>,
    r: Result<(), ReloadError>,
)
    requires
        refusals_checked(old, new, Seq::empty(), leased, r),
        new.worker.owner@ == old.worker.owner@ || leased == Ok::<bool, StoreError>(false),
    ensures
        r is Ok,
{
}

/// A reload that goes on leaves every unfinished repair its tracker, and its
/// staged data where it is.
pub proof fn a_reload_strands_no_repair(
    old: Config,
    new: Config,
    jobs: Seq<RepairJob>,
    leased: Result<bool, StoreError>,
    i: int,
    k: int,
)
    requires
        refusals_checked(old, new, jobs, leased, Ok::<(), ReloadError>(())),
        0 <= i < jobs.len(),
        0 <= k < old.trackers@.len(),
        jobs[i].tracker@ == old.trackers@[k].id@,
    ensures
        has_tracker(new.trackers@, jobs[i].tracker@),
        jobs[i].staging_dir is Some ==> !root_moves(old, new),
{
    tracker_is_counted(jobs, i);
    assert(!orphans(old, new, jobs, k));
    if jobs[i].staging_dir is Some {
        staged_is_counted(jobs, i);
    }
}

proof fn tracker_is_counted(jobs: Seq<RepairJob>, i: int)
    requires
        0 <= i < jobs.len(),
    ensures
        tracker_count(jobs, jobs[i].tracker@) > 0,
    decreases jobs.len(),
{
    if i < jobs.len() - 1 {
        tracker_is_counted(jobs.drop_last(), i);
    }
}

proof fn staged_is_counted(jobs: Seq<RepairJob>, i: int)
    requires
        0 <= i < jobs.len(),
        jobs[i].staging_dir is Some,
    ensures
        staged_count(jobs) > 0,
    decreases jobs.len(),
{
    if i < jobs.len() - 1 {
        staged_is_counted(jobs.drop_last(), i);
    }
}

/// A reload goes on exactly where it strands nothing: the staging root stays, or
/// was not set, or nothing is staged; every tracker with an unfinished repair
/// stays; every library root stays as long as any repair is unfinished; and the
/// owner stays, or nothing is known to be leased.
pub proof fn when_a_reload_goes_on(
    old: Config,
    new: Config,
    jobs: Seq<RepairJob>,
    leased: Result<bool, StoreError>,
    r: Result<(), ReloadError>,
)
    requires
        refusals_checked(old, new, jobs, leased, r),
    ensures
        r is Ok <==> {
            &&& old.staging.root@.len() == 0 || crate::paths::components(new.staging.root@)
                == crate::paths::components(old.staging.root@) || forall|j: int|
                0 <= j < jobs.len() ==> (#[trigger] jobs[j]).staging_dir is None
            &&& forall|i: int, j: int|
                0 <= i < old.trackers@.len() && 0 <= j < jobs.len() && (
                #[trigger] jobs[j]).tracker@ == (#[trigger] old.trackers@[i]).id@ ==> exists|
                    k: int,
                |
                    0 <= k < new.trackers@.len() && (#[trigger] new.trackers@[k]).id@
                        == old.trackers@[i].id@
            &&& jobs.len() == 0 || forall|i: int|
                0 <= i < old.library.roots@.len() ==> has_root(
                    new.library.roots@,
                    (#[trigger] old.library.roots@[i])@,
                )
            &&& new.worker.owner@ == old.worker.owner@ || leased == Ok::<bool, StoreError>(false)
        },
        r matches Err(error) ==> error is Refused,
{
    staged_count_is_of_staged(jobs);
    assert forall|i: int| 0 <= i < old.trackers@.len() implies (#[trigger] orphans(
        old,
        new,
        jobs,
        i,
    ) <==> !has_tracker(new.trackers@, old.trackers@[i].id@) && exists|j: int|
        0 <= j < jobs.len() && (#[trigger] jobs[j]).tracker@ == old.trackers@[i].id@) by {
        tracker_count_is_of_tracker(jobs, old.trackers@[i].id@);
    }
    let stays = forall|i: int, j: int|
        0 <= i < old.trackers@.len() && 0 <= j < jobs.len() && (#[trigger] jobs[j]).tracker@ == (
        #[trigger] old.trackers@[i]).id@ ==> exists|k: int|
            0 <= k < new.trackers@.len() && (#[trigger] new.trackers@[k]).id@
                == old.trackers@[i].id@;
    if exists|i: int| orphans(old, new, jobs, i) {
        let i = choose|i: int| orphans(old, new, jobs, i);
        assert(orphans(old, new, jobs, i));
        let j = choose|j: int|
            0 <= j < jobs.len() && (#[trigger] jobs[j]).tracker@ == old.trackers@[i].id@;
        assert(!stays);
    } else {
        assert forall|i: int, j: int|
            0 <= i < old.trackers@.len() && 0 <= j < jobs.len() && (#[trigger] jobs[j]).tracker@
                == (#[trigger] old.trackers@[i]).id@ implies exists|k: int|
            0 <= k < new.trackers@.len() && (#[trigger] new.trackers@[k]).id@
                == old.trackers@[i].id@ by {
            assert(!orphans(old, new, jobs, i));
        }
        assert(stays);
    }
}

/// A root is listed where one of the listed paths has the same components.
pub proof fn a_root_is_known_by_its_components(roots: Seq<String>, root: Seq<char>)
    ensures
        has_root(roots, root) <==> exists|k: int|
            0 <= k < roots.len() && crate::paths::components((#[trigger] roots[k])@)
                == crate::paths::components(root),
{
}

proof fn staged_count_is_of_staged(jobs: Seq<RepairJob>)
    ensures
        staged_count(jobs) == 0 <==> forall|j: int|
            0 <= j < jobs.len() ==> (#[trigger] jobs[j]).staging_dir is None,
    decreases jobs.len(),
{
    if jobs.len() > 0 {
        let front = jobs.drop_last();
        staged_count_is_of_staged(front);
        if staged_count(jobs) == 0 {
            assert forall|j: int| 0 <= j < jobs.len() implies (#[trigger] jobs[j]).staging_dir
                is None by {
                if j < front.len() {
                    assert(front[j] == jobs[j]);
                }
            }
        }
        if forall|j: int| 0 <= j < jobs.len() ==> (#[trigger] jobs[j]).staging_dir is None {
            assert forall|j: int| 0 <= j < front.len() implies (#[trigger] front[j]).staging_dir
                is None by {
                assert(front[j] == jobs[j]);
            }
            assert(jobs[jobs.len() - 1].staging_dir is None);
        }
    }
}

proof fn tracker_count_is_of_tracker(jobs: Seq<RepairJob>, id: Seq<char>)
    ensures
        tracker_count(jobs, id) > 0 <==> exists|j: int|
            0 <= j < jobs.len() && (#[trigger] jobs[j]).tracker@ == id,
    decreases jobs.len(),
{
    if jobs.len() > 0 {
        let front = jobs.drop_last();
        tracker_count_is_of_tracker(front, id);
        if tracker_count(front, id) > 0 {
            let j = choose|j: int| 0 <= j < front.len() && (#[trigger] front[j]).tracker@ == id;
            assert(jobs[j].tracker@ == id);
        }
        if jobs.last().tracker@ == id {
            assert(jobs[jobs.len() - 1].tracker@ == id);
        }
        if exists|j: int| 0 <= j < jobs.len() && (#[trigger] jobs[j]).tracker@ == id {
            let j = choose|j: int| 0 <= j < jobs.len() && (#[trigger] jobs[j]).tracker@ == id;
            if j < front.len() {
                assert(front[j].tracker@ == id);
            }
        }
    }
}

/// A restart is needed for another database or another address, and for nothing
/// else.
pub proof fn what_needs_a_restart(old: Config, new: Config)
    ensures
        needs_restart(old, new).contains("database.path"@) <==> crate::paths::components(
            new.database.path@,
        ) != crate::paths::components(old.database.path@),
        needs_restart(old, new).contains("server.bind_address"@) <==> new.server.bind_address@
            != old.server.bind_address@,
        forall|i: int|
            0 <= i < needs_restart(old, new).len() ==> #[trigger] needs_restart(old, new)[i]
                == "database.path"@ || needs_restart(old, new)[i] == "server.bind_address"@,
{
    reveal_strlit("database.path");
    reveal_strlit("server.bind_address");
    assert("database.path"@.len() != "server.bind_address"@.len());
    let keys = needs_restart(old, new);
    if crate::paths::components(new.database.path@) != crate::paths::components(
        old.database.path@,
    ) {
        assert(keys[0] == "database.path"@);
    }
    if new.server.bind_address@ != old.server.bind_address@ {
        assert(keys[keys.len() - 1] == "server.bind_address"@);
    }
}

} // verus!
