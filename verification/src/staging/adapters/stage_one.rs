//! Staging one file, step by step.
//!
//! Whoever runs it performs the [`Action`] that a [`StageOne`] asks for and
//! hands back the [`Event`] that came of it. Every path that is written to is
//! the file's destination or a directory on the way to it.

use vstd::prelude::*;
use vstd::string::*;

use super::local::{
    after_try, check_source, judge_place, next_try, DeviceCapabilities, Existing, Place, Try,
};
use crate::staging::safety::{
    check_made_directory, check_parents, parent_levels, Found, Made,
};
use crate::staging::{MaterializationStrategy, PlanItem, StagedFile, StagingError};

verus! {

/// What the file is in the middle of.
#[derive(Debug, PartialEq, Eq)]
pub enum Stage {
    /// The way to its destination is looked at.
    Way,
    /// Its destination is looked at.
    Place,
    /// A leftover at its destination is removed.
    Removing,
    /// The library file is looked at.
    Source,
    /// The directory of that number on its way is made.
    MakingDirectory(usize),
    /// What the devices allow is found out.
    Devices,
    /// The strategy at that place of the preference is tried.
    Trying(usize, DeviceCapabilities),
    Finished,
}

/// The library file as it is now.
#[derive(Clone, Copy, Debug, PartialEq, Eq, Structural)]
pub struct SourceFound {
    pub length: u64,
    pub device: u64,
}

/// What came of an action.
#[derive(Debug, PartialEq, Eq)]
pub enum Event {
    Along(Vec<Found>),
    At(Existing),
    Removed(Result<(), String>),
    /// The library file, where it is there.
    Source(Option<SourceFound>),
    /// What making a directory came to, and what stands there now.
    DirectoryMade(Made, Found),
    Capable(DeviceCapabilities),
    Tried(Result<(), String>),
}

/// What to do next for the file.
#[derive(Debug, PartialEq, Eq)]
pub enum Action {
    /// Look at each of the paths, without following symlinks.
    LookAlong(Vec<String>),
    /// Look at the path, without following symlinks.
    LookAt(String),
    RemoveFile(String),
    /// Look at the library file, without following symlinks.
    LookAtSource(String),
    MakeDirectory(String),
    /// Find out what can be done from that device.
    AskDevices(u64),
    Reflink { from: String, to: String },
    Hardlink { from: String, to: String },
    Copy { from: String, to: String },
    Finish(Result<StagedFile, StagingError>),
}

/// Staging one file.
#[derive(Debug, PartialEq, Eq)]
pub struct StageOne {
    pub root: String,
    pub item: PlanItem,
    pub preference: Vec<MaterializationStrategy>,
    /// The device of the library file, once it is known.
    pub device: u64,
    pub stage: Stage,
}

impl StageOne {
    /// Where the file is staged.
    pub open spec fn destination(self) -> Seq<char> {
        crate::torrent::path::below(self.root@, self.item.destination@)
    }

    /// The directory of that number on the way, the root first.
    pub open spec fn way(self, i: int) -> Seq<char> {
        crate::staging::safety::level(
            self.root@,
            self.item.destination.components().drop_last(),
            i,
        )
    }

    /// How many directories are on the way, the root among them.
    pub open spec fn way_len(self) -> int {
        self.item.destination.components().len() as int
    }

    /// The same file at the same place.
    pub open spec fn same_file(self, other: StageOne) -> bool {
        &&& self.root == other.root
        &&& self.item == other.item
        &&& self.preference == other.preference
    }
}

/// The event is what can come of the action that the stage stands for.
pub open spec fn fits(one: StageOne, event: Event) -> bool {
    match one.stage {
        Stage::Way => event matches Event::Along(found) && found@.len() == one.way_len(),
        Stage::Place => event is At,
        Stage::Removing => event is Removed,
        Stage::Source => event is Source,
        Stage::MakingDirectory(i) => event is DirectoryMade && 0 < i < one.way_len(),
        Stage::Devices => event is Capable,
        Stage::Trying(at, _) => event is Tried && at < one.preference@.len(),
        Stage::Finished => false,
    }
}

/// The file is done with.
pub open spec fn finishes(after: StageOne, action: Action, r: Result<StagedFile, StagingError>) -> bool {
    after.stage is Finished && action == Action::Finish(r)
}

/// The file is given up with an error.
pub open spec fn gives_up(after: StageOne, action: Action, error: StagingError) -> bool {
    finishes(after, action, Err::<StagedFile, StagingError>(error))
}

/// The library file is looked at next.
pub open spec fn asks_for_source(before: StageOne, after: StageOne, action: Action) -> bool {
    after.stage is Source && (action matches Action::LookAtSource(path) && path@
        == before.item.source@)
}

/// The directory of that number is made next; after the last one, the devices
/// are asked about.
pub open spec fn makes_directory(
    before: StageOne,
    i: int,
    device: u64,
    after: StageOne,
    action: Action,
) -> bool {
    &&& after.device == device
    &&& if i < before.way_len() {
        &&& after.stage == Stage::MakingDirectory(i as usize)
        &&& action matches Action::MakeDirectory(path) && path@ == before.way(i)
    } else {
        &&& after.stage is Devices
        &&& action == Action::AskDevices(device)
    }
}

/// The strategy is tried from the library file to the destination.
pub open spec fn tries(before: StageOne, strategy: MaterializationStrategy, action: Action) -> bool {
    match strategy {
        MaterializationStrategy::Reflink => action matches Action::Reflink { from, to } && from@
            == before.item.source@ && to@ == before.destination(),
        MaterializationStrategy::Hardlink => action matches Action::Hardlink { from, to } && from@
            == before.item.source@ && to@ == before.destination(),
        MaterializationStrategy::Copy => action matches Action::Copy { from, to } && from@
            == before.item.source@ && to@ == before.destination(),
    }
}

/// What is tried next, or what the file comes to.
pub open spec fn goes_on(
    before: StageOne,
    capabilities: DeviceCapabilities,
    next: Try,
    after: StageOne,
    action: Action,
) -> bool {
    match next {
        Try::Do(at, strategy) => after.stage == Stage::Trying(at, capabilities) && tries(
            before,
            strategy,
            action,
        ),
        Try::Done(r) => finishes(after, action, r),
    }
}

/// What came of trying a strategy.
pub open spec fn tried(
    before: StageOne,
    at: usize,
    capabilities: DeviceCapabilities,
    result: Result<(), String>,
    after: StageOne,
    action: Action,
) -> bool {
    match result {
        Ok(()) => finishes(
            after,
            action,
            Ok::<StagedFile, StagingError>(
                StagedFile {
                    path: before.item.destination,
                    strategy: before.preference@[at as int],
                    bytes: before.item.length,
                },
            ),
        ),
        Err(why) => match before.preference@[at as int] {
            MaterializationStrategy::Hardlink => exists|next: Try|
                #![trigger goes_on(before, capabilities, next, after, action)]
                super::local::tried_from(
                    before.preference@,
                    capabilities,
                    at + 1,
                    Some(
                        StagingError::StrategyUnavailable {
                            strategy: MaterializationStrategy::Hardlink,
                            reason: why,
                        },
                    ),
                    next,
                ) && goes_on(before, capabilities, next, after, action),
            MaterializationStrategy::Reflink => after.stage is Finished && (
            action matches Action::Finish(Err(StagingError::Io(message))) && message@
                == super::local::cannot(
                "reflink"@,
                before.item.source@,
                before.destination(),
                why@,
            )),
            MaterializationStrategy::Copy => after.stage is Finished && (
            action matches Action::Finish(Err(StagingError::Io(message))) && message@
                == super::local::cannot(
                "copy"@,
                before.item.source@,
                before.destination(),
                why@,
            )),
        },
    }
}

/// What stands at the destination comes to.
pub open spec fn placed(before: StageOne, existing: Existing, after: StageOne, action: Action) -> bool {
    match existing {
        Existing::Nothing => asks_for_source(before, after, action),
        Existing::Symlink => after.stage is Finished && (action matches Action::Finish(
            Err(StagingError::UnsafePath { path, reason }),
        ) && path@ == before.destination() && reason@ == "destination exists and is a symlink"@),
        Existing::File { length, links } => if length == before.item.length {
            finishes(
                after,
                action,
                Ok::<StagedFile, StagingError>(
                    StagedFile {
                        path: before.item.destination,
                        strategy: super::local::earlier_strategy(before.item, links),
                        bytes: length,
                    },
                ),
            )
        } else {
            after.stage is Removing && (action matches Action::RemoveFile(path) && path@
                == before.destination())
        },
        Existing::Other => after.stage is Removing && (action matches Action::RemoveFile(path)
            && path@ == before.destination()),
    }
}

/// What the library file as it is now comes to.
pub open spec fn sourced(
    before: StageOne,
    found: Option<SourceFound>,
    after: StageOne,
    action: Action,
) -> bool {
    match found {
        None => after.stage is Finished && (action matches Action::Finish(
            Err(StagingError::SourceMissing(path)),
        ) && path@ == before.item.source@),
        Some(file) => if file.length == before.item.length {
            makes_directory(before, 1, file.device, after, action)
        } else {
            after.stage is Finished && (action matches Action::Finish(
                Err(StagingError::SourceChanged { path, expected, actual }),
            ) && path@ == before.item.source@ && expected == before.item.length && actual
                == file.length)
        },
    }
}

/// What an event comes to.
pub open spec fn staged(before: StageOne, event: Event, after: StageOne, action: Action) -> bool {
    &&& after.same_file(before)
    &&& match (before.stage, event) {
        (Stage::Way, Event::Along(found)) => if crate::staging::safety::way_is_clear(found@) {
            after.stage is Place && (action matches Action::LookAt(path) && path@
                == before.destination())
        } else {
            exists|i: int|
                0 <= i < found@.len() && crate::staging::safety::way_is_clear(found@.take(i)) && (
                after.stage is Finished && (action matches Action::Finish(Err(error))
                    && crate::staging::safety::rejected(
                    before.way(i),
                    #[trigger] found@[i],
                    error,
                )))
        },
        (Stage::Place, Event::At(existing)) => placed(before, existing, after, action),
        (Stage::Removing, Event::Removed(result)) => match result {
            Ok(()) => asks_for_source(before, after, action),
            Err(why) => after.stage is Finished && (action matches Action::Finish(
                Err(StagingError::Io(message)),
            ) && message@ == "cannot replace "@ + before.destination() + ": "@ + why@),
        },
        (Stage::Source, Event::Source(found)) => sourced(before, found, after, action),
        (Stage::MakingDirectory(i), Event::DirectoryMade(made, found)) => if made !is Failed && (
        found is Nothing || found is Real) {
            makes_directory(before, i + 1, before.device, after, action)
        } else {
            after.stage is Finished && (action matches Action::Finish(Err(error)) && match made {
                Made::Failed(why) => error matches StagingError::Io(message) && message@
                    == "cannot create "@ + before.way(i as int) + ": "@ + why@,
                _ => crate::staging::safety::rejected(before.way(i as int), found, error),
            })
        },
        (Stage::Devices, Event::Capable(capabilities)) => exists|next: Try|
            #![trigger goes_on(before, capabilities, next, after, action)]
            super::local::tried_from(before.preference@, capabilities, 0, None, next) && goes_on(
                before,
                capabilities,
                next,
                after,
                action,
            ),
        (Stage::Trying(at, capabilities), Event::Tried(result)) => tried(
            before,
            at,
            capabilities,
            result,
            after,
            action,
        ),
        _ => false,
    }
}

impl StageOne {
    /// Begin with the way to the destination.
    pub fn start(root: &str, item: PlanItem, preference: Vec<MaterializationStrategy>) -> (r: (
        StageOne,
        Action,
    ))
        ensures
            r.0.root@ == root@,
            r.0.item == item,
            r.0.preference == preference,
            r.0.stage is Way,
            r.1 matches Action::LookAlong(paths) && paths@.len() == r.0.way_len() && forall|i: int|
                0 <= i < paths@.len() ==> (#[trigger] paths@[i])@ == r.0.way(i),
    {
        let paths = parent_levels(root, &item.destination);
        proof {
            crate::text::fields_hold_no_separator(item.destination@, '/');
        }
        (
            StageOne { root: root.to_owned(), item, preference, device: 0, stage: Stage::Way },
            Action::LookAlong(paths),
        )
    }

    fn at(self, stage: Stage) -> (r: StageOne)
        ensures
            r == (StageOne { stage, ..self }),
    {
        StageOne {
            root: self.root,
            item: self.item,
            preference: self.preference,
            device: self.device,
            stage,
        }
    }

    fn finish(self, result: Result<StagedFile, StagingError>) -> (r: (StageOne, Action))
        ensures
            r.0.same_file(self),
            finishes(r.0, r.1, result),
    {
        (self.at(Stage::Finished), Action::Finish(result))
    }

    fn target(&self) -> (r: String)
        ensures
            r@ == self.destination(),
    {
        self.item.destination.join_onto(self.root.as_str())
    }

    fn look_at_source(self) -> (r: (StageOne, Action))
        ensures
            r.0.same_file(self),
            asks_for_source(self, r.0, r.1),
    {
        let path = self.item.source.clone();
        (self.at(Stage::Source), Action::LookAtSource(path))
    }

    fn make_directory(self, i: usize, device: u64) -> (r: (StageOne, Action))
        requires
            i >= 1,
        ensures
            r.0.same_file(self),
            makes_directory(self, i as int, device, r.0, r.1),
    {
        let paths = parent_levels(self.root.as_str(), &self.item.destination);
        proof {
            crate::text::fields_hold_no_separator(self.item.destination@, '/');
        }
        let (path, more): (String, bool) = if i < paths.len() {
            (paths[i].clone(), true)
        } else {
            (String::new(), false)
        };
        let next = StageOne {
            root: self.root,
            item: self.item,
            preference: self.preference,
            device,
            stage: if more {
                Stage::MakingDirectory(i)
            } else {
                Stage::Devices
            },
        };
        if more {
            (next, Action::MakeDirectory(path))
        } else {
            (next, Action::AskDevices(device))
        }
    }

    fn go_on(self, capabilities: DeviceCapabilities, next: Try) -> (r: (StageOne, Action))
        ensures
            r.0.same_file(self),
            goes_on(self, capabilities, next, r.0, r.1),
    {
        match next {
            Try::Done(result) => self.finish(result),
            Try::Do(at, strategy) => {
                let from = self.item.source.clone();
                let to = self.target();
                let action = match strategy {
                    MaterializationStrategy::Reflink => Action::Reflink { from, to },
                    MaterializationStrategy::Hardlink => Action::Hardlink { from, to },
                    MaterializationStrategy::Copy => Action::Copy { from, to },
                };
                (self.at(Stage::Trying(at, capabilities)), action)
            },
        }
    }

    fn place(self, existing: Existing) -> (r: (StageOne, Action))
        ensures
            r.0.same_file(self),
            placed(self, existing, r.0, r.1),
    {
        let destination = self.target();
        match judge_place(&self.item, destination.as_str(), existing) {
            Err(error) => self.finish(Err(error)),
            Ok(Place::Keep(file)) => self.finish(Ok(file)),
            Ok(Place::Free) => self.look_at_source(),
            Ok(Place::Replace) => (self.at(Stage::Removing), Action::RemoveFile(destination)),
        }
    }

    fn source(self, found: Option<SourceFound>) -> (r: (StageOne, Action))
        ensures
            r.0.same_file(self),
            sourced(self, found, r.0, r.1),
    {
        let length = match found {
            Some(file) => Some(file.length),
            None => None,
        };
        match check_source(&self.item, length) {
            Err(error) => self.finish(Err(error)),
            Ok(()) => match found {
                Some(file) => self.make_directory(1, file.device),
                None => self.look_at_source(),
            },
        }
    }

    /// Take in what came of the last action, and say what to do next.
    pub fn next(self, event: Event) -> (r: (StageOne, Action))
        requires
            fits(self, event),
        ensures
            staged(self, event, r.0, r.1),
    {
        match event {
            Event::Along(found) => {
                match check_parents(self.root.as_str(), &self.item.destination, &found) {
                    Ok(()) => {
                        let destination = self.target();
                        (self.at(Stage::Place), Action::LookAt(destination))
                    },
                    Err(error) => self.finish(Err(error)),
                }
            },
            Event::At(existing) => self.place(existing),
            Event::Removed(Ok(())) => self.look_at_source(),
            Event::Removed(Err(why)) => {
                let mut message = "cannot replace ".to_owned();
                message.append(self.target().as_str());
                message.append(": ");
                message.append(why.as_str());
                self.finish(Err(StagingError::Io(message)))
            },
            Event::Source(found) => self.source(found),
            Event::DirectoryMade(made, found) => {
                let paths = parent_levels(self.root.as_str(), &self.item.destination);
                proof {
                    crate::text::fields_hold_no_separator(self.item.destination@, '/');
                }
                let i: usize = match self.stage {
                    Stage::MakingDirectory(i) => i,
                    _ => 0,
                };
                let len: usize = paths.len();
                assert(i < len);
                match check_made_directory(paths[i].as_str(), &made, &found) {
                    Ok(()) => {
                        let device: u64 = self.device;
                        self.make_directory(i + 1, device)
                    },
                    Err(error) => self.finish(Err(error)),
                }
            },
            Event::Capable(capabilities) => {
                let next = next_try(&self.preference, &capabilities, 0, None);
                let ghost chosen = next;
                let r = self.go_on(capabilities, next);
                assert(goes_on(self, capabilities, chosen, r.0, r.1));
                r
            },
            Event::Tried(result) => {
                let (at, capabilities): (usize, DeviceCapabilities) = match &self.stage {
                    Stage::Trying(at, capabilities) => (*at, capabilities.clone()),
                    _ => return self.finish(Err(StagingError::NoStrategyPermitted)),
                };
                let destination = self.target();
                let next = after_try(
                    &self.item,
                    destination.as_str(),
                    &self.preference,
                    &capabilities,
                    at,
                    result,
                );
                let ghost chosen = next;
                let r = self.go_on(capabilities, next);
                assert(goes_on(self, capabilities, chosen, r.0, r.1));
                r
            },
        }
    }
}

/// What a file's staging writes to lies below the root: its own destination, or
/// a directory on the way to it.
pub open spec fn writes_within(one: StageOne, action: Action) -> bool {
    match action {
        Action::RemoveFile(path) => path@ == one.destination(),
        Action::MakeDirectory(path) => exists|i: int|
            0 < i < one.way_len() && path@ == #[trigger] one.way(i),
        Action::Reflink { to, .. } => to@ == one.destination(),
        Action::Hardlink { to, .. } => to@ == one.destination(),
        Action::Copy { to, .. } => to@ == one.destination(),
        _ => true,
    }
}

/// Nothing is ever written anywhere but at the destination and on the way to
/// it.
pub proof fn staging_writes_only_within(
    before: StageOne,
    event: Event,
    after: StageOne,
    action: Action,
)
    requires
        fits(before, event),
        staged(before, event, after, action),
    ensures
        writes_within(before, action),
{
    match (before.stage, event) {
        (Stage::Source, Event::Source(found)) => {
            if action is MakeDirectory {
                assert(action->MakeDirectory_0@ == before.way(1));
            }
        },
        (Stage::MakingDirectory(i), Event::DirectoryMade(made, found)) => {
            if action is MakeDirectory {
                assert(action->MakeDirectory_0@ == before.way(i + 1));
            }
        },
        _ => {},
    }
}

/// The library file is used only after it was seen to be there with the right
/// size: anything else ends the staging.
pub proof fn only_an_unchanged_source_is_used(
    before: StageOne,
    found: Option<SourceFound>,
    after: StageOne,
    action: Action,
)
    requires
        before.stage is Source,
        staged(before, Event::Source(found), after, action),
        after.stage !is Finished,
    ensures
        found matches Some(file) && file.length == before.item.length,
{
}

/// A symlink on the way stops the file, and so does a place that cannot be looked
/// at; otherwise its destination is looked at.
pub proof fn a_symlink_on_the_way_stops_the_file(
    before: StageOne,
    found: Vec<Found>,
    after: StageOne,
    action: Action,
    k: int,
)
    requires
        before.stage is Way,
        staged(before, Event::Along(found), after, action),
        0 <= k < found@.len(),
    ensures
        found@[k] is Symlink || found@[k] is Unknown ==> (action matches Action::Finish(result)
            && result is Err),
        (forall|i: int|
            0 <= i < found@.len() ==> (#[trigger] found@[i]) is Nothing || found@[i] is Real) ==> (
        action matches Action::LookAt(path) && path@ == before.destination()),
{
}

/// A file of the right length at the destination is kept and nothing is written;
/// one of another length, or anything else that is no symlink, is removed first; a
/// symlink is refused; and where there is nothing the library file is looked at.
pub proof fn what_stands_at_the_destination_is_dealt_with(
    before: StageOne,
    existing: Existing,
    after: StageOne,
    action: Action,
)
    requires
        before.stage is Place,
        staged(before, Event::At(existing), after, action),
    ensures
        match existing {
            Existing::Nothing => action matches Action::LookAtSource(path) && path@
                == before.item.source@,
            Existing::Symlink => action matches Action::Finish(
                Err(StagingError::UnsafePath { path, .. }),
            ) && path@ == before.destination(),
            Existing::Other => action matches Action::RemoveFile(path) && path@
                == before.destination(),
            Existing::File { length, links } => if length == before.item.length {
                action matches Action::Finish(Ok(file)) && file.path == before.item.destination
                    && file.bytes == length && (before.item.previous_strategy matches Some(recorded)
                    ==> file.strategy == recorded) && (before.item.previous_strategy is None ==> (
                file.strategy is Hardlink <==> links > 1) && file.strategy !is Reflink)
            } else {
                action matches Action::RemoveFile(path) && path@ == before.destination()
            },
        },
{
}

/// The library file must be there with exactly the length the torrent expects;
/// then the directories are made from the outermost on, one after the other, and
/// behind the last one the devices are asked about.
pub proof fn a_changed_source_is_not_staged(
    before: StageOne,
    event: Event,
    after: StageOne,
    action: Action,
)
    requires
        staged(before, event, after, action),
    ensures
        before.stage is Source && event is Source ==> match event->Source_0 {
            None => action matches Action::Finish(Err(StagingError::SourceMissing(path))) && path@
                == before.item.source@,
            Some(file) => if file.length != before.item.length {
                action matches Action::Finish(
                    Err(StagingError::SourceChanged { path, expected, actual }),
                ) && path@ == before.item.source@ && expected == before.item.length && actual
                    == file.length
            } else if before.item.destination.components().len() > 1 {
                action matches Action::MakeDirectory(path) && path@ == before.way(1)
                    && after.device == file.device
            } else {
                action == Action::AskDevices(file.device)
            },
        },
        before.stage is MakingDirectory && event is DirectoryMade ==> {
            let i = before.stage->MakingDirectory_0;
            match (event->DirectoryMade_0, event->DirectoryMade_1) {
                (Made::Failed(_), _) => action matches Action::Finish(Err(StagingError::Io(_))),
                (_, Found::Symlink) => action matches Action::Finish(
                    Err(StagingError::UnsafePath { path, .. }),
                ) && path@ == before.way(i as int),
                (_, Found::Unknown(_)) => action matches Action::Finish(Err(StagingError::Io(_))),
                _ => if i + 1 < before.item.destination.components().len() {
                    action matches Action::MakeDirectory(path) && path@ == before.way(i + 1)
                        && after.device == before.device
                } else {
                    action == Action::AskDevices(before.device)
                },
            }
        },
        before.stage is Removing && event is Removed ==> match event->Removed_0 {
            Ok(()) => action matches Action::LookAtSource(path) && path@ == before.item.source@,
            Err(_) => action matches Action::Finish(Err(StagingError::Io(_))),
        },
{
}

/// A strategy that worked is what is told of the file, with its length; a reflink
/// or a copy that failed fails the file, and a hardlink that failed makes way for
/// the next strategy that the devices allow, if there is one.
pub proof fn what_a_try_comes_to(
    before: StageOne,
    at: usize,
    c: DeviceCapabilities,
    result: Result<(), String>,
    after: StageOne,
    action: Action,
)
    requires
        before.stage == Stage::Trying(at, c),
        at < before.preference@.len() <= usize::MAX,
        staged(before, Event::Tried(result), after, action),
    ensures
        result is Ok ==> (action matches Action::Finish(Ok(file)) && file.path
            == before.item.destination && file.strategy == before.preference@[at as int]
            && file.bytes == before.item.length),
        result is Err && before.preference@[at as int] !is Hardlink ==> (action matches Action::Finish(
            Err(StagingError::Io(_)),
        )),
        result is Err && before.preference@[at as int] is Hardlink ==> match action {
            Action::Finish(r) => r is Err,
            Action::Copy { from, to } => from@ == before.item.source@ && to@
                == before.destination() && (after.stage matches Stage::Trying(n, _) && at < n
                < before.preference@.len() && before.preference@[n as int] is Copy),
            Action::Reflink { .. } => c.reflink is Supported,
            Action::Hardlink { .. } => c.can_hardlink,
            _ => false,
        },
{
    if result is Err && before.preference@[at as int] is Hardlink {
        let last = Some(
            StagingError::StrategyUnavailable {
                strategy: MaterializationStrategy::Hardlink,
                reason: result->Err_0,
            },
        );
        let next = choose|next: Try|
            #![trigger goes_on(before, c, next, after, action)]
            super::local::tried_from(before.preference@, c, at + 1, last, next) && goes_on(
                before,
                c,
                next,
                after,
                action,
            );
        super::local::only_allowed_strategies_are_tried(
            before.preference@,
            c,
            at + 1,
            last,
            next,
        );
    }
}

/// The first strategy of the preference that the devices allow is tried first,
/// from the library file to the destination.
pub proof fn the_preferred_strategy_is_tried_first(
    before: StageOne,
    c: DeviceCapabilities,
    after: StageOne,
    action: Action,
    at: int,
)
    requires
        before.stage is Devices,
        staged(before, Event::Capable(c), after, action),
        0 <= at < before.preference@.len() <= usize::MAX,
        forall|i: int|
            0 <= i < at ==> match #[trigger] before.preference@[i] {
                MaterializationStrategy::Reflink => c.reflink is Unsupported,
                MaterializationStrategy::Hardlink => !c.can_hardlink,
                MaterializationStrategy::Copy => false,
            },
    ensures
        match before.preference@[at] {
            MaterializationStrategy::Reflink => c.reflink is Supported ==> (
            action matches Action::Reflink { from, to } && from@ == before.item.source@ && to@
                == before.destination()),
            MaterializationStrategy::Hardlink => c.can_hardlink ==> (
            action matches Action::Hardlink { from, to } && from@ == before.item.source@ && to@
                == before.destination()),
            MaterializationStrategy::Copy => action matches Action::Copy { from, to } && from@
                == before.item.source@ && to@ == before.destination(),
        },
{
    let next = choose|next: Try|
        #![trigger goes_on(before, c, next, after, action)]
        super::local::tried_from(before.preference@, c, 0, None, next) && goes_on(
            before,
            c,
            next,
            after,
            action,
        );
    super::local::the_first_strategy_that_works_is_tried(
        before.preference@,
        c,
        0,
        None,
        next,
        at,
    );
}

} // verus!
