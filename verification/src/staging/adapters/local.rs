//! Staging on the local filesystem.
//!
//! Reflink, hardlink and copy. Reflink and hardlink both depend on source and
//! staging sharing a device, and reflink additionally needs the filesystem to
//! support cloning; both are probed once per (source device, staging device)
//! pair and remembered, rather than discovered file by file.
//!
//! Everything that is decided is decided here, from what was found on disk.

use vstd::prelude::*;
use vstd::string::*;

use crate::staging::safety::{resolve_under, Found};
use crate::staging::{
    MaterializationStrategy, PlanItem, ReflinkSupport, StagedFile, StagingError, StagingPresence,
    StagingRoot,
};
use crate::table::{Name, Table};
use crate::torrent::SafeRelativePath;

verus! {

/// What was learned, once, about a (source device, staging device) pair.
#[derive(Debug, PartialEq, Eq)]
pub struct DeviceCapabilities {
    pub can_hardlink: bool,
    pub reflink: ReflinkSupport,
}

impl Clone for DeviceCapabilities {
    fn clone(&self) -> (r: DeviceCapabilities)
        ensures
            r == *self,
    {
        DeviceCapabilities { can_hardlink: self.can_hardlink, reflink: self.reflink.clone() }
    }
}

/// A source device and the staging device.
#[derive(Clone, Copy, Debug, PartialEq, Eq, Structural)]
pub struct Devices {
    pub source: u64,
    pub staging: u64,
}

impl View for Devices {
    type V = (u64, u64);

    open spec fn view(&self) -> (u64, u64) {
        (self.source, self.staging)
    }
}

impl Name for Devices {
    fn is_name(&self, other: &Devices) -> (r: bool) {
        self.source == other.source && self.staging == other.staging
    }
}

/// What a reflink probe showed.
pub fn probe_result(result: Result<(), String>) -> (r: ReflinkSupport)
    ensures
        match result {
            Ok(()) => r is Supported,
            Err(why) => r matches ReflinkSupport::Unsupported { reason } && reason@
                == "reflink probe failed: "@ + why@,
        },
{
    match result {
        Ok(()) => ReflinkSupport::Supported,
        Err(why) => {
            let mut reason = "reflink probe failed: ".to_owned();
            reason.append(why.as_str());
            ReflinkSupport::Unsupported { reason }
        },
    }
}

/// What can be done between two devices: across devices nothing, and on one
/// device what the probe showed.
pub open spec fn capable(devices: Devices, probed: Option<ReflinkSupport>, c: DeviceCapabilities) -> bool {
    if devices.source == devices.staging {
        c.can_hardlink && Some(c.reflink) == probed
    } else {
        !c.can_hardlink && (c.reflink matches ReflinkSupport::Unsupported { reason } && reason@
            == "source and staging are on different devices"@)
    }
}

/// What is known about the devices.
#[derive(Debug)]
pub struct DeviceProbes {
    known: Table<Devices, DeviceCapabilities>,
    attempts: usize,
}

impl View for DeviceProbes {
    type V = Map<(u64, u64), DeviceCapabilities>;

    closed spec fn view(&self) -> Map<(u64, u64), DeviceCapabilities> {
        self.known@
    }
}

/// What asking about two devices comes to.
pub open spec fn devices_probed(
    known: Map<(u64, u64), DeviceCapabilities>,
    tried: int,
    devices: Devices,
    probed: Option<ReflinkSupport>,
    r: DeviceCapabilities,
    known_after: Map<(u64, u64), DeviceCapabilities>,
    tried_after: int,
) -> bool {
    if known.dom().contains(devices@) {
        &&& r == known[devices@]
        &&& known_after == known
        &&& tried_after == tried
    } else {
        &&& capable(devices, probed, r)
        &&& known_after == known.insert(devices@, r)
        &&& tried_after == tried + 1
    }
}


impl DeviceProbes {
    /// How many pairs were probed rather than answered from memory.
    pub closed spec fn tried(self) -> int {
        self.attempts as int
    }

    pub fn new() -> (r: DeviceProbes)
        ensures
            r@ == Map::<(u64, u64), DeviceCapabilities>::empty(),
            r.tried() == 0,
    {
        DeviceProbes { known: Table::new(), attempts: 0 }
    }

    pub fn attempts(&self) -> (r: usize)
        ensures
            r == self.tried(),
    {
        self.attempts
    }

    /// What is known about a pair.
    pub fn known(&self, devices: Devices) -> (r: Option<DeviceCapabilities>)
        ensures
            match r {
                Some(c) => self@.dom().contains(devices@) && self@[devices@] == c,
                None => !self@.dom().contains(devices@),
            },
    {
        match self.known.get(&devices) {
            Some(c) => Some(c.clone()),
            None => None,
        }
    }

    /// Whether a clone has to be tried to learn about a pair.
    pub fn needs_probe(&self, devices: Devices) -> (r: bool)
        ensures
            r == (!self@.dom().contains(devices@) && devices.source == devices.staging),
    {
        self.known.get(&devices).is_none() && devices.source == devices.staging
    }

    /// Look up, or establish, what can be done between two devices. `probed` is
    /// what trying a clone showed, where that was needed.
    pub fn probe_devices(&mut self, devices: Devices, probed: Option<ReflinkSupport>) -> (r:
        DeviceCapabilities)
        requires
            !old(self)@.dom().contains(devices@) && devices.source == devices.staging
                ==> probed is Some,
            old(self).tried() < usize::MAX,
        ensures
            devices_probed(
                old(self)@,
                old(self).tried(),
                devices,
                probed,
                r,
                final(self)@,
                final(self).tried(),
            ),
    {
        match self.known.get(&devices) {
            Some(c) => return c.clone(),
            None => {},
        }
        self.attempts = self.attempts + 1;
        let can_hardlink: bool = devices.source == devices.staging;
        let unsupported = ReflinkSupport::Unsupported {
            reason: "source and staging are on different devices".to_owned(),
        };
        let reflink = if can_hardlink {
            match probed {
                Some(support) => support,
                None => unsupported,
            }
        } else {
            unsupported
        };
        let capabilities = DeviceCapabilities { can_hardlink, reflink };
        self.known.put(devices, capabilities.clone());
        capabilities
    }
}

/// The reflink support told in the audit trail: nothing where no reflink was
/// asked for, or nothing is known of the first file's device.
pub fn plan_reflink_probe(
    preference: &Vec<MaterializationStrategy>,
    first: Option<DeviceCapabilities>,
) -> (r: Option<ReflinkSupport>)
    ensures
        r == match first {
            Some(c) => if preference@.contains(MaterializationStrategy::Reflink) {
                Some(c.reflink)
            } else {
                None
            },
            None => None,
        },
{
    if !asks_for_reflink(preference) {
        return None;
    }
    match first {
        Some(c) => Some(c.reflink),
        None => None,
    }
}

/// Whether a reflink may be tried at all.
pub fn asks_for_reflink(preference: &Vec<MaterializationStrategy>) -> (r: bool)
    ensures
        r == preference@.contains(MaterializationStrategy::Reflink),
{
    let mut i: usize = 0;
    while i < preference.len()
        invariant
            i <= preference@.len(),
            forall|k: int| 0 <= k < i ==> preference@[k] !is Reflink,
        decreases preference@.len() - i,
    {
        if preference[i] == MaterializationStrategy::Reflink {
            return true;
        }
        i += 1;
    }
    false
}

/// The devices allow the strategy.
pub open spec fn viable(strategy: MaterializationStrategy, c: DeviceCapabilities) -> bool {
    match strategy {
        MaterializationStrategy::Reflink => c.reflink is Supported,
        MaterializationStrategy::Hardlink => c.can_hardlink,
        MaterializationStrategy::Copy => true,
    }
}

/// The first strategy that the devices allow.
pub open spec fn first_viable(
    preference: Seq<MaterializationStrategy>,
    c: DeviceCapabilities,
) -> Option<MaterializationStrategy>
    decreases preference.len(),
{
    if preference.len() == 0 {
        None
    } else if viable(preference[0], c) {
        Some(preference[0])
    } else {
        first_viable(preference.skip(1), c)
    }
}

/// What a file costs: its length, unless the first strategy that the devices
/// allow shares its data.
pub open spec fn cost(
    length: u64,
    preference: Seq<MaterializationStrategy>,
    c: DeviceCapabilities,
) -> u64 {
    match first_viable(preference, c) {
        Some(MaterializationStrategy::Reflink) => 0,
        Some(MaterializationStrategy::Hardlink) => 0,
        _ => length,
    }
}

fn is_viable(strategy: MaterializationStrategy, c: &DeviceCapabilities) -> (r: bool)
    ensures
        r == viable(strategy, *c),
{
    match strategy {
        MaterializationStrategy::Reflink => matches!(&c.reflink, ReflinkSupport::Supported),
        MaterializationStrategy::Hardlink => c.can_hardlink,
        MaterializationStrategy::Copy => true,
    }
}

/// What a file of `length` bytes would cost to materialise, given the first
/// strategy in `preference` that the device probe says will work. Where none
/// works, the worst is assumed, so that this stays a safe upper bound.
pub fn predicted_cost(
    length: u64,
    preference: &Vec<MaterializationStrategy>,
    capabilities: &DeviceCapabilities,
) -> (r: u64)
    ensures
        r == cost(length, preference@, *capabilities),
{
    let mut i: usize = 0;
    assert(preference@.skip(0) =~= preference@);
    while i < preference.len()
        invariant
            i <= preference@.len(),
            first_viable(preference@, *capabilities) == first_viable(
                preference@.skip(i as int),
                *capabilities,
            ),
        decreases preference@.len() - i,
    {
        assert(preference@.skip(i as int).skip(1) =~= preference@.skip(i + 1));
        if is_viable(preference[i], capabilities) {
            return match preference[i] {
                MaterializationStrategy::Copy => length,
                _ => 0,
            };
        }
        i += 1;
    }
    length
}

/// The staging area on the local filesystem.
#[derive(Debug)]
pub struct LocalStaging {
    pub root: StagingRoot,
    /// Free space to keep on the staging filesystem beyond what a plan needs.
    pub min_free_bytes: u64,
    pub probes: DeviceProbes,
}

impl LocalStaging {
    pub fn new(root: StagingRoot, min_free_bytes: u64) -> (r: LocalStaging)
        ensures
            r.root == root,
            r.min_free_bytes == min_free_bytes,
            r.probes@ == Map::<(u64, u64), DeviceCapabilities>::empty(),
            r.probes.tried() == 0,
    {
        LocalStaging { root, min_free_bytes, probes: DeviceProbes::new() }
    }

    /// Where a job's torrent is saved.
    pub fn save_path(&self, job_dir: &SafeRelativePath) -> (r: String)
        ensures
            r@ == crate::torrent::path::below(self.root@, job_dir@),
    {
        job_dir.join_onto(self.root.path())
    }
}

/// What stands where a file is to be staged.
#[derive(Clone, Copy, Debug, PartialEq, Eq, Structural)]
pub enum Existing {
    /// Nothing, or nothing that can be looked at.
    Nothing,
    Symlink,
    File { length: u64, links: u64 },
    Other,
}

impl Existing {
    /// A file of that length.
    pub open spec fn is_whole(self, length: u64) -> bool {
        self matches Existing::File { length: found, .. } && found == length
    }
}

/// Whether a file of the right size is there already.
pub fn already_staged(existing: Existing, expected_length: u64) -> (r: bool)
    ensures
        r == existing.is_whole(expected_length),
{
    match existing {
        Existing::File { length, .. } => length == expected_length,
        _ => false,
    }
}

/// What was found out about an item before anything is written.
#[derive(Debug)]
pub struct Survey {
    /// What stands on the way to the destination and at it, level by level.
    pub way: Vec<Found>,
    pub existing: Existing,
    /// What can be done from the source's device, where that is known.
    pub capabilities: Option<DeviceCapabilities>,
}

/// What an item newly writes.
pub open spec fn item_cost(
    item: PlanItem,
    survey: Survey,
    preference: Seq<MaterializationStrategy>,
) -> int {
    if survey.existing.is_whole(item.length) {
        0
    } else {
        match survey.capabilities {
            Some(c) => cost(item.length, preference, c) as int,
            None => item.length as int,
        }
    }
}

/// What the items newly write together.
pub open spec fn costs(
    items: Seq<PlanItem>,
    surveys: Seq<Survey>,
    preference: Seq<MaterializationStrategy>,
) -> int
    decreases items.len(),
{
    if items.len() == 0 {
        0
    } else {
        costs(items.drop_last(), surveys.drop_last(), preference) + item_cost(
            items.last(),
            surveys.last(),
            preference,
        )
    }
}

/// The first of the items cost no more than all of them.
pub proof fn costs_grow(
    items: Seq<PlanItem>,
    surveys: Seq<Survey>,
    preference: Seq<MaterializationStrategy>,
    n: int,
)
    requires
        items.len() == surveys.len(),
        0 <= n <= items.len(),
    ensures
        0 <= costs(items.take(n), surveys.take(n), preference) <= costs(items, surveys, preference),
    decreases items.len(),
{
    if n < items.len() {
        costs_grow(items.drop_last(), surveys.drop_last(), preference, n);
        assert(items.drop_last().take(n) =~= items.take(n));
        assert(surveys.drop_last().take(n) =~= surveys.take(n));
    } else {
        assert(items.take(n) =~= items);
        assert(surveys.take(n) =~= surveys);
        if items.len() > 0 {
            costs_grow(items.drop_last(), surveys.drop_last(), preference, items.len() - 1);
        }
    }
}

/// The number, or the largest there is.
pub open spec fn capped(n: int) -> int {
    if n <= u64::MAX {
        n
    } else {
        u64::MAX as int
    }
}

/// The first of the items whose way is not clear is that one, and the error
/// says why.
pub open spec fn first_blocked(
    root: Seq<char>,
    items: Seq<PlanItem>,
    surveys: Seq<Survey>,
    i: int,
    error: StagingError,
) -> bool {
    &&& 0 <= i < items.len()
    &&& forall|k: int|
        0 <= k < i ==> crate::staging::safety::way_is_clear((#[trigger] surveys[k]).way@)
    &&& crate::staging::safety::first_rejected(
        root,
        items[i].destination.components(),
        surveys[i].way@,
        error,
    )
}

/// Every item was surveyed, level by level.
pub open spec fn surveyed(items: Seq<PlanItem>, surveys: Seq<Survey>) -> bool {
    &&& surveys.len() == items.len()
    &&& forall|i: int|
        0 <= i < items.len() ==> (#[trigger] surveys[i]).way@.len()
            == items[i].destination.components().len() + 1
}

/// Bytes this plan would newly write: a file already staged at the right size
/// costs nothing, and a file that would reflink or hardlink costs nothing
/// either. Only a predicted copy counts, so the check that uses this can run
/// before anything is written.
pub fn required_new_bytes(
    root: &str,
    items: &Vec<PlanItem>,
    surveys: &Vec<Survey>,
    preference: &Vec<MaterializationStrategy>,
) -> (r: Result<u64, StagingError>)
    requires
        surveyed(items@, surveys@),
    ensures
        match r {
            Ok(needed) => {
                &&& forall|i: int|
                    0 <= i < surveys@.len() ==> crate::staging::safety::way_is_clear(
                        (#[trigger] surveys@[i]).way@,
                    )
                &&& needed == capped(costs(items@, surveys@, preference@))
            },
            Err(error) => exists|i: int| first_blocked(root@, items@, surveys@, i, error),
        },
{
    let mut total: u64 = 0;
    let mut i: usize = 0;
    while i < items.len()
        invariant
            i <= items@.len(),
            surveyed(items@, surveys@),
            forall|k: int|
                0 <= k < i ==> crate::staging::safety::way_is_clear((#[trigger] surveys@[k]).way@),
            total == capped(costs(items@.take(i as int), surveys@.take(i as int), preference@)),
        decreases items@.len() - i,
    {
        match resolve_under(root, &items[i].destination, &surveys[i].way) {
            Ok(_) => {},
            Err(error) => {
                assert(first_blocked(root@, items@, surveys@, i as int, error));
                return Err(error);
            },
        }
        proof {
            assert(items@.take(i + 1).drop_last() =~= items@.take(i as int));
            assert(surveys@.take(i + 1).drop_last() =~= surveys@.take(i as int));
            costs_grow(items@.take(i as int), surveys@.take(i as int), preference@, 0);
        }
        let cost: u64 = if already_staged(surveys[i].existing, items[i].length) {
            0
        } else {
            // Unknown source device: assume the worst, a full copy, rather than
            // fail the space check early. The real problem is reported when
            // the file's turn comes.
            match &surveys[i].capabilities {
                Some(capabilities) => predicted_cost(items[i].length, preference, capabilities),
                None => items[i].length,
            }
        };
        total = total.saturating_add(cost);
        i += 1;
    }
    assert(items@.take(i as int) =~= items@);
    assert(surveys@.take(i as int) =~= surveys@);
    Ok(total)
}

/// There is room for that much, with the margin kept.
pub open spec fn has_room(needed: u64, available: u64, margin: u64) -> bool {
    needed == 0 || needed + margin <= available
}

/// Whether a plan that writes that much may be carried out. Nothing is written
/// where it may not.
pub fn check_space(needed: u64, available: u64, margin: u64) -> (r: Result<(), StagingError>)
    ensures
        match r {
            Ok(()) => has_room(needed, available, margin),
            Err(error) => !has_room(needed, available, margin) && error
                == (StagingError::InsufficientSpace { needed, available, margin }),
        },
{
    if needed > 0 && needed > available.saturating_sub(margin) {
        return Err(StagingError::InsufficientSpace { needed, available, margin });
    }
    Ok(())
}

/// What to do about the place where a file is to be staged.
#[derive(Debug, PartialEq, Eq)]
pub enum Place {
    /// Leave what is there.
    Keep(StagedFile),
    /// Remove what is there first.
    Replace,
    Free,
}

/// The strategy of a file that was staged by an earlier attempt: the recorded
/// one, or else what can be told from the file. More than one link means it
/// shares an inode with something, so it counts as a hardlink, because assuming
/// the safer answer here would be assuming the *less* safe behaviour later.
pub open spec fn earlier_strategy(item: PlanItem, links: u64) -> MaterializationStrategy {
    match item.previous_strategy {
        Some(strategy) => strategy,
        None => if links > 1 {
            MaterializationStrategy::Hardlink
        } else {
            MaterializationStrategy::Copy
        },
    }
}

/// Judge what stands where a file is to be staged.
///
/// Already there and the right size: a previous attempt got this far. Leave it
/// alone, which is what makes staging safe to retry. Of another size: our own
/// half-written leftover.
pub fn judge_place(item: &PlanItem, destination: &str, existing: Existing) -> (r: Result<
    Place,
    StagingError,
>)
    ensures
        match existing {
            Existing::Nothing => r == Ok::<Place, StagingError>(Place::Free),
            Existing::Symlink => r matches Err(StagingError::UnsafePath { path, reason }) && path@
                == destination@ && reason@ == "destination exists and is a symlink"@,
            Existing::File { length, links } => if length == item.length {
                r matches Ok(Place::Keep(file)) && file == (StagedFile {
                    path: item.destination,
                    strategy: earlier_strategy(*item, links),
                    bytes: length,
                })
            } else {
                r == Ok::<Place, StagingError>(Place::Replace)
            },
            Existing::Other => r == Ok::<Place, StagingError>(Place::Replace),
        },
{
    match existing {
        Existing::Nothing => Ok(Place::Free),
        Existing::Symlink => Err(
            StagingError::UnsafePath {
                path: destination.to_owned(),
                reason: "destination exists and is a symlink",
            },
        ),
        Existing::File { length, links } => if length == item.length {
            let strategy = match item.previous_strategy {
                Some(strategy) => strategy,
                None => if links > 1 {
                    MaterializationStrategy::Hardlink
                } else {
                    MaterializationStrategy::Copy
                },
            };
            Ok(Place::Keep(StagedFile { path: item.destination.clone(), strategy, bytes: length }))
        } else {
            Ok(Place::Replace)
        },
        Existing::Other => Ok(Place::Replace),
    }
}

/// Judge the library file immediately before it is used. `found` is its length,
/// where it is there.
pub fn check_source(item: &PlanItem, found: Option<u64>) -> (r: Result<(), StagingError>)
    ensures
        match (found, r) {
            (Some(actual), Ok(())) => actual == item.length,
            (None, Err(StagingError::SourceMissing(path))) => path@ == item.source@,
            (Some(actual), Err(StagingError::SourceChanged { path, expected, actual: told })) =>
                actual != item.length && path@ == item.source@ && expected == item.length && told
                    == actual,
            _ => false,
        },
{
    match found {
        None => Err(StagingError::SourceMissing(item.source.clone())),
        Some(actual) => if actual == item.length {
            Ok(())
        } else {
            Err(
                StagingError::SourceChanged {
                    path: item.source.clone(),
                    expected: item.length,
                    actual,
                },
            )
        },
    }
}

/// What to try next for a file.
#[derive(Debug, PartialEq, Eq)]
pub enum Try {
    /// That strategy, which stands at that place of the preference.
    Do(usize, MaterializationStrategy),
    Done(Result<StagedFile, StagingError>),
}

/// Why the devices do not allow a strategy.
pub open spec fn unavailable(
    strategy: MaterializationStrategy,
    c: DeviceCapabilities,
    error: StagingError,
) -> bool {
    error matches StagingError::StrategyUnavailable { strategy: which, reason } && which == strategy
        && match strategy {
        MaterializationStrategy::Reflink => c.reflink matches ReflinkSupport::Unsupported {
            reason: why,
        } && reason@ == why@,
        _ => reason@ == "source and staging are on different devices"@,
    }
}

/// What comes next from that place of the preference on: the first strategy
/// that the devices allow, or the error of the last one that failed.
pub open spec fn tried_from(
    preference: Seq<MaterializationStrategy>,
    c: DeviceCapabilities,
    start: int,
    last: Option<StagingError>,
    r: Try,
) -> bool
    decreases preference.len() - start,
{
    if start >= preference.len() {
        r matches Try::Done(Err(error)) && match last {
            Some(earlier) => error == earlier,
            None => error is NoStrategyPermitted,
        }
    } else if viable(preference[start], c) {
        r == Try::Do(start as usize, preference[start])
    } else {
        exists|error: StagingError| #[trigger]
            unavailable(preference[start], c, error) && tried_from(
                preference,
                c,
                start + 1,
                Some(error),
                r,
            )
    }
}

fn no_strategy(strategy: MaterializationStrategy, c: &DeviceCapabilities) -> (r: StagingError)
    requires
        !viable(strategy, *c),
    ensures
        unavailable(strategy, *c, r),
{
    match strategy {
        MaterializationStrategy::Reflink => match &c.reflink {
            ReflinkSupport::Unsupported { reason } => StagingError::StrategyUnavailable {
                strategy,
                reason: reason.clone(),
            },
            ReflinkSupport::Supported => StagingError::NoStrategyPermitted,
        },
        _ => StagingError::StrategyUnavailable {
            strategy,
            reason: "source and staging are on different devices".to_owned(),
        },
    }
}

/// The first strategy to try from that place of the preference on.
///
/// One that the device probe rules out is not even tried: a hardlink across
/// devices is known up front to fail.
pub fn next_try(
    preference: &Vec<MaterializationStrategy>,
    capabilities: &DeviceCapabilities,
    start: usize,
    last: Option<StagingError>,
) -> (r: Try)
    requires
        start <= preference@.len(),
    ensures
        tried_from(preference@, *capabilities, start as int, last, r),
    decreases preference@.len() - start,
{
    if start >= preference.len() {
        return match last {
            Some(error) => Try::Done(Err(error)),
            None => Try::Done(Err(StagingError::NoStrategyPermitted)),
        };
    }
    let strategy = preference[start];
    if is_viable(strategy, capabilities) {
        return Try::Do(start, strategy);
    }
    let error = no_strategy(strategy, capabilities);
    let ghost why = error;
    let r = next_try(preference, capabilities, start + 1, Some(error));
    assert(unavailable(preference@[start as int], *capabilities, why));
    r
}

/// The sentence about a strategy that failed.
pub open spec fn cannot(
    verb: Seq<char>,
    source: Seq<char>,
    destination: Seq<char>,
    why: Seq<char>,
) -> Seq<char> {
    "cannot "@ + verb + " "@ + source + " to "@ + destination + ": "@ + why
}

fn failure(verb: &str, source: &str, destination: &str, why: &str) -> (r: StagingError)
    ensures
        r matches StagingError::Io(message) && message@ == cannot(
            verb@,
            source@,
            destination@,
            why@,
        ),
{
    let mut message = "cannot ".to_owned();
    message.append(verb);
    message.append(" ");
    message.append(source);
    message.append(" to ");
    message.append(destination);
    message.append(": ");
    message.append(why);
    StagingError::Io(message)
}

/// What came of trying the strategy at that place of the preference. A hardlink
/// that fails makes way for the next strategy; a reflink or a copy that fails
/// is a failure.
pub fn after_try(
    item: &PlanItem,
    destination: &str,
    preference: &Vec<MaterializationStrategy>,
    capabilities: &DeviceCapabilities,
    at: usize,
    result: Result<(), String>,
) -> (r: Try)
    requires
        at < preference@.len(),
    ensures
        match result {
            Ok(()) => r == Try::Done(
                Ok::<StagedFile, StagingError>(
                    StagedFile {
                        path: item.destination,
                        strategy: preference@[at as int],
                        bytes: item.length,
                    },
                ),
            ),
            Err(why) => match preference@[at as int] {
                MaterializationStrategy::Reflink => r matches Try::Done(
                    Err(StagingError::Io(message)),
                ) && message@ == cannot("reflink"@, item.source@, destination@, why@),
                MaterializationStrategy::Copy => r matches Try::Done(Err(StagingError::Io(message)))
                    && message@ == cannot("copy"@, item.source@, destination@, why@),
                MaterializationStrategy::Hardlink => tried_from(
                    preference@,
                    *capabilities,
                    at + 1,
                    Some(
                        StagingError::StrategyUnavailable {
                            strategy: MaterializationStrategy::Hardlink,
                            reason: why,
                        },
                    ),
                    r,
                ),
            },
        },
{
    let len: usize = preference.len();
    assert(at < len);
    let strategy = preference[at];
    match result {
        Ok(()) => Try::Done(
            Ok(
                StagedFile { path: item.destination.clone(), strategy, bytes: item.length },
            ),
        ),
        Err(why) => match strategy {
            MaterializationStrategy::Reflink => Try::Done(
                Err(failure("reflink", item.source.as_str(), destination, why.as_str())),
            ),
            MaterializationStrategy::Copy => Try::Done(
                Err(failure("copy", item.source.as_str(), destination, why.as_str())),
            ),
            MaterializationStrategy::Hardlink => next_try(
                preference,
                capabilities,
                at + 1,
                Some(StagingError::StrategyUnavailable { strategy, reason: why }),
            ),
        },
    }
}

/// The items that are there, each at its right size.
pub open spec fn present(items: Seq<PlanItem>, found: Seq<Existing>) -> int
    decreases items.len(),
{
    if items.len() == 0 {
        0
    } else {
        present(items.drop_last(), found.drop_last()) + if found.last().is_whole(
            items.last().length,
        ) {
            1int
        } else {
            0
        }
    }
}

/// What is told of how much of a plan is on disk.
pub open spec fn presence_told(
    items: Seq<PlanItem>,
    found: Seq<Existing>,
    r: StagingPresence,
) -> bool {
    let there = present(items, found);
    if there == 0 {
        r is Absent
    } else if there == items.len() {
        r is Complete
    } else {
        r == (StagingPresence::Incomplete {
            present: there as usize,
            expected: items.len() as usize,
        })
    }
}

/// How much of a plan is on disk. `found` is what stands at each destination.
pub fn presence(items: &Vec<PlanItem>, found: &Vec<Existing>) -> (r: StagingPresence)
    requires
        found@.len() == items@.len(),
    ensures
        presence_told(items@, found@, r),
{
    let mut there: usize = 0;
    let mut i: usize = 0;
    while i < items.len()
        invariant
            i <= items@.len() == found@.len(),
            there <= i,
            there == present(items@.take(i as int), found@.take(i as int)),
        decreases items@.len() - i,
    {
        proof {
            assert(items@.take(i + 1).drop_last() =~= items@.take(i as int));
            assert(found@.take(i + 1).drop_last() =~= found@.take(i as int));
        }
        if already_staged(found[i], items[i].length) {
            there = there + 1;
        }
        i += 1;
    }
    assert(items@.take(i as int) =~= items@);
    assert(found@.take(i as int) =~= found@);
    if there == 0 {
        StagingPresence::Absent
    } else if there == items.len() {
        StagingPresence::Complete
    } else {
        StagingPresence::Incomplete { present: there, expected: items.len() }
    }
}

/// What is to be removed for a job, or why nothing is.
pub open spec fn discard_judged(
    root: Seq<char>,
    job_dir: SafeRelativePath,
    way: Seq<Found>,
    r: Result<String, StagingError>,
) -> bool {
    &&& r is Ok <==> crate::staging::safety::way_is_clear(way)
    &&& match r {
        Ok(directory) => {
            &&& directory@ == crate::torrent::path::below(root, job_dir@)
            &&& crate::paths::within(directory@, root)
            &&& crate::paths::components(directory@).len() > crate::paths::components(root).len()
        },
        Err(error) => crate::staging::safety::first_rejected(
            root,
            job_dir.components(),
            way,
            error,
        ),
    }
}

/// The directory to remove for a job, or why it must not be touched. `way` is
/// what stands on the way to it and at the directory itself. Resolving first
/// means that a removal never recurses through a symlink into somebody else's
/// data.
pub fn discard_target(root: &str, job_dir: &SafeRelativePath, way: &Vec<Found>) -> (r: Result<
    String,
    StagingError,
>)
    requires
        way@.len() == job_dir.components().len() + 1,
    ensures
        discard_judged(root@, *job_dir, way@, r),
{
    match resolve_under(root, job_dir, way) {
        Ok(_) => {},
        Err(error) => return Err(error),
    }
    let directory = job_dir.join_onto(root);
    proof {
        crate::text::fields_hold_no_separator(job_dir@, '/');
        let base = crate::paths::components(root@);
        assert(crate::paths::components(directory@) == base + job_dir.components());
        assert(base.is_prefix_of(base + job_dir.components()));
    }
    Ok(directory)
}

/// What removing a directory comes to. One that is not there is as good as
/// removed.
#[derive(Debug, PartialEq, Eq)]
pub enum Removal {
    Removed,
    NotThere,
    Failed(String),
}

pub fn discarded(directory: &str, removal: Removal) -> (r: Result<(), StagingError>)
    ensures
        match removal {
            Removal::Failed(why) => r matches Err(StagingError::Io(message)) && message@
                == "cannot remove "@ + directory@ + ": "@ + why@,
            _ => r is Ok,
        },
{
    match removal {
        Removal::Removed => Ok(()),
        Removal::NotThere => Ok(()),
        Removal::Failed(why) => {
            let mut message = "cannot remove ".to_owned();
            message.append(directory);
            message.append(": ");
            message.append(why.as_str());
            Err(StagingError::Io(message))
        },
    }
}

/// Only a strategy of the preference is ever tried, only one that the devices
/// allow, and later ones only after earlier ones.
pub proof fn only_allowed_strategies_are_tried(
    preference: Seq<MaterializationStrategy>,
    c: DeviceCapabilities,
    start: int,
    last: Option<StagingError>,
    r: Try,
)
    requires
        0 <= start <= preference.len() <= usize::MAX,
        tried_from(preference, c, start, last, r),
    ensures
        r matches Try::Do(at, strategy) ==> {
            &&& start <= at < preference.len()
            &&& preference[at as int] == strategy
            &&& viable(strategy, c)
        },
        r matches Try::Done(result) ==> result is Err,
    decreases preference.len() - start,
{
    if start < preference.len() && !viable(preference[start], c) {
        let error = choose|error: StagingError| #[trigger]
            unavailable(preference[start], c, error) && tried_from(
                preference,
                c,
                start + 1,
                Some(error),
                r,
            );
        only_allowed_strategies_are_tried(preference, c, start + 1, Some(error), r);
    }
}

/// A hardlink is never tried across devices.
pub proof fn hardlinks_stay_on_one_device(
    devices: Devices,
    probed: Option<ReflinkSupport>,
    c: DeviceCapabilities,
)
    requires
        capable(devices, probed, c),
        viable(MaterializationStrategy::Hardlink, c),
    ensures
        devices.source == devices.staging,
{
}

/// Staging again what is there already changes nothing: the file is kept, with
/// the recorded strategy.
pub proof fn staging_twice_keeps_the_first_result(item: PlanItem, links: u64)
    ensures
        item.previous_strategy is Some ==> earlier_strategy(item, links)
            == item.previous_strategy->0,
        item.previous_strategy is None && links > 1 ==> earlier_strategy(item, links) is Hardlink,
{
}

/// A plan is absent where none of its files is there, complete where all of them
/// are, each a file of exactly its length, and incomplete in between.
pub proof fn a_plan_is_complete_where_every_file_is_there(
    items: Seq<PlanItem>,
    found: Seq<Existing>,
    r: StagingPresence,
)
    requires
        found.len() == items.len(),
        presence_told(items, found, r),
    ensures
        r is Absent <==> forall|i: int|
            0 <= i < items.len() ==> !(#[trigger] found[i] is File && found[i]->length
                == items[i].length),
        r is Complete <==> items.len() > 0 && forall|i: int|
            0 <= i < items.len() ==> #[trigger] found[i] is File && found[i]->length
                == items[i].length,
{
    present_counts(items, found);
}

proof fn present_counts(items: Seq<PlanItem>, found: Seq<Existing>)
    requires
        found.len() == items.len(),
    ensures
        0 <= present(items, found) <= items.len(),
        present(items, found) == 0 <==> forall|i: int|
            0 <= i < items.len() ==> !(#[trigger] found[i] is File && found[i]->length
                == items[i].length),
        present(items, found) == items.len() <==> forall|i: int|
            0 <= i < items.len() ==> #[trigger] found[i] is File && found[i]->length
                == items[i].length,
    decreases items.len(),
{
    if items.len() > 0 {
        let e = items.len() - 1;
        let (front, seen) = (items.drop_last(), found.drop_last());
        present_counts(front, seen);
        assert forall|i: int| 0 <= i < e implies #[trigger] found[i] == seen[i] && items[i]
            == front[i] by {}
        assert(found[e] == found.last());
        if present(items, found) == 0 {
            assert forall|i: int| 0 <= i < items.len() implies !(#[trigger] found[i] is File
                && found[i]->length == items[i].length) by {
                if i < e {
                    assert(!(seen[i] is File && seen[i]->length == front[i].length));
                }
            }
        }
        if forall|i: int|
            0 <= i < items.len() ==> !(#[trigger] found[i] is File && found[i]->length
                == items[i].length) {
            assert forall|i: int| 0 <= i < front.len() implies !(#[trigger] seen[i] is File
                && seen[i]->length == front[i].length) by {
                assert(found[i] == seen[i]);
            }
            assert(!(found[e] is File && found[e]->length == items[e].length));
        }
        if present(items, found) == items.len() {
            assert forall|i: int| 0 <= i < items.len() implies #[trigger] found[i] is File
                && found[i]->length == items[i].length by {
                if i < e {
                    assert(seen[i] is File && seen[i]->length == front[i].length);
                }
            }
        }
        if forall|i: int|
            0 <= i < items.len() ==> #[trigger] found[i] is File && found[i]->length
                == items[i].length {
            assert forall|i: int| 0 <= i < front.len() implies #[trigger] seen[i] is File
                && seen[i]->length == front[i].length by {
                assert(found[i] == seen[i]);
            }
            assert(found[e] is File && found[e]->length == items[e].length);
        }
    }
}

/// Across devices neither a hardlink nor a reflink is possible; on one device a
/// hardlink is, and a reflink where the probe showed it.
pub proof fn what_the_devices_allow(
    devices: Devices,
    probed: Option<ReflinkSupport>,
    c: DeviceCapabilities,
)
    requires
        capable(devices, probed, c),
    ensures
        c.can_hardlink <==> devices.source == devices.staging,
        c.reflink is Supported <==> devices.source == devices.staging && probed == Some(
            ReflinkSupport::Supported,
        ),
{
}

/// A file costs its whole length unless the first strategy of the preference that
/// the devices allow shares its data, and then nothing.
pub proof fn what_a_file_costs(
    length: u64,
    preference: Seq<MaterializationStrategy>,
    c: DeviceCapabilities,
    at: int,
)
    requires
        0 <= at <= preference.len(),
        forall|i: int|
            0 <= i < at ==> match #[trigger] preference[i] {
                MaterializationStrategy::Reflink => c.reflink is Unsupported,
                MaterializationStrategy::Hardlink => !c.can_hardlink,
                MaterializationStrategy::Copy => false,
            },
    ensures
        at == preference.len() ==> cost(length, preference, c) == length,
        at < preference.len() && preference[at] is Copy ==> cost(length, preference, c) == length,
        at < preference.len() && preference[at] is Hardlink && c.can_hardlink ==> cost(
            length,
            preference,
            c,
        ) == 0,
        at < preference.len() && preference[at] is Reflink && c.reflink is Supported ==> cost(
            length,
            preference,
            c,
        ) == 0,
    decreases at,
{
    if at > 0 {
        assert(!viable(preference[0], c));
        let rest = preference.skip(1);
        assert forall|i: int| 0 <= i < at - 1 implies match #[trigger] rest[i] {
            MaterializationStrategy::Reflink => c.reflink is Unsupported,
            MaterializationStrategy::Hardlink => !c.can_hardlink,
            MaterializationStrategy::Copy => false,
        } by {
            assert(rest[i] == preference[i + 1]);
        }
        what_a_file_costs(length, rest, c, at - 1);
        if at < preference.len() {
            assert(rest[at - 1] == preference[at]);
        }
    }
}

/// A file that is there at its length costs nothing, one whose device is unknown
/// costs its length, and a plan costs what its files cost together.
pub proof fn what_a_plan_costs(
    items: Seq<PlanItem>,
    surveys: Seq<Survey>,
    preference: Seq<MaterializationStrategy>,
    item: PlanItem,
    survey: Survey,
)
    ensures
        costs(Seq::empty(), Seq::empty(), preference) == 0,
        costs(items.push(item), surveys.push(survey), preference) == costs(
            items,
            surveys,
            preference,
        ) + item_cost(item, survey, preference),
        survey.existing is File && survey.existing->length == item.length ==> item_cost(
            item,
            survey,
            preference,
        ) == 0,
        !(survey.existing is File && survey.existing->length == item.length) ==> item_cost(
            item,
            survey,
            preference,
        ) == match survey.capabilities {
            Some(c) => cost(item.length, preference, c),
            None => item.length,
        },
{
    assert(items.push(item).drop_last() =~= items);
    assert(surveys.push(survey).drop_last() =~= surveys);
}

/// What is tried is the first strategy from there on that the devices allow, and
/// where they allow none of them the file fails.
pub proof fn the_first_strategy_that_works_is_tried(
    preference: Seq<MaterializationStrategy>,
    c: DeviceCapabilities,
    start: int,
    last: Option<StagingError>,
    r: Try,
    at: int,
)
    requires
        0 <= start <= at <= preference.len() <= usize::MAX,
        tried_from(preference, c, start, last, r),
        forall|i: int|
            start <= i < at ==> match #[trigger] preference[i] {
                MaterializationStrategy::Reflink => c.reflink is Unsupported,
                MaterializationStrategy::Hardlink => !c.can_hardlink,
                MaterializationStrategy::Copy => false,
            },
    ensures
        at < preference.len() && match preference[at] {
            MaterializationStrategy::Reflink => c.reflink is Supported,
            MaterializationStrategy::Hardlink => c.can_hardlink,
            MaterializationStrategy::Copy => true,
        } ==> r == Try::Do(at as usize, preference[at]),
        at == preference.len() ==> (r matches Try::Done(result) && result is Err),
        at == preference.len() && start == at && last is None ==> r == Try::Done(
            Err::<StagedFile, StagingError>(StagingError::NoStrategyPermitted),
        ),
        at == preference.len() && start == at && last is Some ==> r == Try::Done(
            Err::<StagedFile, StagingError>(last->0),
        ),
    decreases preference.len() - start,
{
    if start < at {
        assert(match preference[start] {
            MaterializationStrategy::Reflink => c.reflink is Unsupported,
            MaterializationStrategy::Hardlink => !c.can_hardlink,
            MaterializationStrategy::Copy => false,
        });
        let error = choose|error: StagingError| #[trigger]
            unavailable(preference[start], c, error) && tried_from(
                preference,
                c,
                start + 1,
                Some(error),
                r,
            );
        the_first_strategy_that_works_is_tried(preference, c, start + 1, Some(error), r, at);
    }
}

/// A file that an earlier attempt left and that has one name only counts as a copy
/// where nothing else is on record.
pub proof fn an_unrecorded_file_of_one_name_is_a_copy(item: PlanItem, links: u64)
    requires
        item.previous_strategy is None,
    ensures
        earlier_strategy(item, links) is Hardlink <==> links > 1,
        earlier_strategy(item, links) is Copy <==> links <= 1,
{
}

/// A pair of devices is probed once: asked about again, the answer is the same and
/// nothing is tried, whatever a probe would show by then; other pairs are left
/// alone.
pub proof fn a_pair_of_devices_is_probed_once(
    known: Map<(u64, u64), DeviceCapabilities>,
    tried: int,
    devices: Devices,
    probed: Option<ReflinkSupport>,
    first: DeviceCapabilities,
    between: Map<(u64, u64), DeviceCapabilities>,
    tried_between: int,
    probed_again: Option<ReflinkSupport>,
    second: DeviceCapabilities,
    after: Map<(u64, u64), DeviceCapabilities>,
    tried_after: int,
    other: (u64, u64),
)
    requires
        devices_probed(known, tried, devices, probed, first, between, tried_between),
        devices_probed(
            between,
            tried_between,
            devices,
            probed_again,
            second,
            after,
            tried_after,
        ),
    ensures
        second == first,
        after == between,
        tried_after == tried_between <= tried + 1,
        other != (devices.source, devices.staging) ==> between.dom().contains(other)
            == known.dom().contains(other) && between[other] == known[other],
{
}

/// A job's directory is removed only where nothing on the way to it, and not it
/// itself, is a symlink; what is removed lies below the root and is not the root.
pub proof fn nothing_is_removed_through_a_symlink(
    root: Seq<char>,
    job_dir: SafeRelativePath,
    way: Seq<Found>,
    r: Result<String, StagingError>,
    k: int,
)
    requires
        discard_judged(root, job_dir, way, r),
        0 <= k < way.len(),
    ensures
        way[k] is Symlink || way[k] is Unknown ==> r is Err,
        (forall|i: int| 0 <= i < way.len() ==> (#[trigger] way[i]) is Nothing || way[i] is Real)
            ==> r is Ok,
        r matches Ok(directory) ==> crate::paths::components(root).is_prefix_of(
            crate::paths::components(directory@),
        ) && crate::paths::components(directory@) != crate::paths::components(root),
        root.len() > 0 && root.last() != '/' ==> (r matches Ok(directory) ==> directory@ == root
            + seq!['/'] + job_dir@),
{
}

} // verus!
