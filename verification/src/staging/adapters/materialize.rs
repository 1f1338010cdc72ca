//! Materialising a whole plan, step by step.
//!
//! Nothing is written before every file of the plan was looked at and the room
//! for all of them was found. Whoever runs it performs the [`Action`] that a
//! [`Materialize`] asks for and hands back the [`Event`] that came of it.

use vstd::prelude::*;
use vstd::string::*;

use super::local::{
    asks_for_reflink, check_space, plan_reflink_probe, required_new_bytes, DeviceCapabilities,
    Survey,
};
use super::stage_one::{self, StageOne};
use crate::staging::{
    MaterializationStrategy, PlanItem, ReflinkSupport, StagedFile, StagedLayout, StagingError,
};

verus! {

/// What the plan is in the middle of.
#[derive(Debug, PartialEq, Eq)]
pub enum Phase {
    /// The staging root's device is found out.
    Root,
    /// What can be done from the first file's device is found out.
    First,
    /// The next file is looked at.
    Surveying,
    /// The free space is found out. That much is needed.
    Space(u64),
    /// The next file is staged.
    Staging(StageOne),
    Finished,
}

/// What came of an action.
#[derive(Debug)]
pub enum Event {
    RootDevice(Result<u64, String>),
    First(Option<DeviceCapabilities>),
    Surveyed(Survey),
    Free(Result<u64, StagingError>),
    One(stage_one::Event),
}

/// What to do next for the plan.
#[derive(Debug, PartialEq, Eq)]
pub enum Action {
    /// Find out the device of the staging root.
    LookAtRoot,
    /// Find out what can be done from the device of that file.
    AskAbout(String),
    /// Look at the file of that number: the way to it, what stands there, and
    /// what can be done from its source's device.
    Survey(usize),
    /// Find out the free space.
    FindFreeSpace,
    One(stage_one::Action),
    Finish(Result<StagedLayout, StagingError>),
}

/// Materialising a plan.
#[derive(Debug)]
pub struct Materialize {
    pub root: String,
    pub items: Vec<PlanItem>,
    pub preference: Vec<MaterializationStrategy>,
    /// The free space to keep.
    pub margin: u64,
    pub reflink: Option<ReflinkSupport>,
    /// What was found out about the first files.
    pub surveys: Vec<Survey>,
    /// The first files, staged.
    pub done: Vec<StagedFile>,
    pub phase: Phase,
}

impl Materialize {
    /// The same plan for the same place.
    pub open spec fn same_plan(self, other: Materialize) -> bool {
        &&& self.root == other.root
        &&& self.items == other.items
        &&& self.preference == other.preference
        &&& self.margin == other.margin
    }

    /// What was found out about the first files fits them.
    pub open spec fn surveyed_so_far(self) -> bool {
        &&& self.surveys@.len() <= self.items@.len()
        &&& forall|i: int|
            0 <= i < self.surveys@.len() ==> (#[trigger] self.surveys@[i]).way@.len()
                == self.items@[i].destination.components().len() + 1
    }

    /// The plan is where it says it is.
    pub open spec fn well_formed(self) -> bool {
        &&& self.surveyed_so_far()
        &&& match self.phase {
            Phase::Surveying => self.surveys@.len() < self.items@.len(),
            Phase::Space(_) => self.surveys@.len() == self.items@.len(),
            Phase::Staging(one) => self.done@.len() < self.items@.len(),
            _ => true,
        }
    }
}

/// The event is what can come of the action that the phase stands for.
pub open spec fn fits(plan: Materialize, event: Event) -> bool {
    match (plan.phase, event) {
        (Phase::Root, Event::RootDevice(_)) => true,
        (Phase::First, Event::First(_)) => true,
        (Phase::Surveying, Event::Surveyed(survey)) => survey.way@.len()
            == plan.items@[plan.surveys@.len() as int].destination.components().len() + 1,
        (Phase::Space(_), Event::Free(_)) => true,
        (Phase::Staging(one), Event::One(inner)) => stage_one::fits(one, inner),
        _ => false,
    }
}

/// The plan is given up.
pub open spec fn gives_up(after: Materialize, action: Action, error: StagingError) -> bool {
    after.phase is Finished && action == Action::Finish(Err::<StagedLayout, StagingError>(error))
}

/// The way to the file's destination is looked along: the root and every
/// directory down to the file, in that order.
pub open spec fn looks_along(one: StageOne, action: Action) -> bool {
    action matches Action::One(stage_one::Action::LookAlong(paths)) && paths@.len() == one.way_len()
        && forall|i: int| 0 <= i < paths@.len() ==> (#[trigger] paths@[i])@ == one.way(i)
}

/// The next file is staged, and the way to it is looked along first; after the
/// last one, the plan is done.
pub open spec fn stages_next(
    before: Materialize,
    done: Seq<StagedFile>,
    after: Materialize,
    action: Action,
) -> bool {
    &&& after.done@ == done
    &&& after.reflink == before.reflink
    &&& if done.len() < before.items@.len() {
        &&& after.phase matches Phase::Staging(one) && one.root@ == before.root@ && one.item
            == before.items@[done.len() as int] && one.preference@ == before.preference@
            && one.stage is Way && looks_along(one, action)
    } else {
        &&& after.phase is Finished
        &&& action matches Action::Finish(Ok(layout)) && layout.files@ == done && layout.reflink
            == before.reflink
    }
}

/// What all surveys together come to: the first way that is not clear stops the
/// plan, and the room for what has to be written is looked for.
pub open spec fn all_surveyed(
    before: Materialize,
    surveys: Seq<Survey>,
    after: Materialize,
    action: Action,
) -> bool {
    let needed = super::local::capped(
        super::local::costs(before.items@, surveys, before.preference@),
    );
    if !all_clear(surveys) {
        exists|i: int, error: StagingError|
            super::local::first_blocked(before.root@, before.items@, surveys, i, error)
                && #[trigger] gives_up_over(i, after, action, error)
    } else if needed == 0 {
        stages_next(before, before.done@, after, action)
    } else {
        &&& after.phase == Phase::Space(needed as u64)
        &&& after.done@ == before.done@
        &&& after.reflink == before.reflink
        &&& action is FindFreeSpace
    }
}

/// Every way is clear.
pub open spec fn all_clear(surveys: Seq<Survey>) -> bool {
    forall|i: int|
        0 <= i < surveys.len() ==> crate::staging::safety::way_is_clear((#[trigger] surveys[i]).way@)
}

/// The plan is given up over the file of that number.
pub open spec fn gives_up_over(i: int, after: Materialize, action: Action, error: StagingError) -> bool {
    gives_up(after, action, error)
}

/// The next file is looked at; after the last one, all surveys are judged.
pub open spec fn surveys_next(
    before: Materialize,
    surveys: Seq<Survey>,
    after: Materialize,
    action: Action,
) -> bool {
    &&& after.surveys@ == surveys
    &&& if surveys.len() < before.items@.len() {
        &&& after.phase is Surveying
        &&& after.done@ == before.done@
        &&& after.reflink == before.reflink
        &&& action == Action::Survey(surveys.len() as usize)
    } else {
        all_surveyed(before, surveys, after, action)
    }
}

/// What an event comes to.
pub open spec fn materialized(
    before: Materialize,
    event: Event,
    after: Materialize,
    action: Action,
) -> bool {
    &&& after.same_plan(before)
    &&& match (before.phase, event) {
        (Phase::Root, Event::RootDevice(device)) => match device {
            Err(why) => after.phase is Finished && (action matches Action::Finish(
                Err(StagingError::Io(message)),
            ) && message@ == "cannot stat "@ + before.root@ + ": "@ + why@),
            Ok(_) => if before.items@.len() > 0 && before.preference@.contains(
                MaterializationStrategy::Reflink,
            ) {
                &&& after.phase is First
                &&& after.surveys@ == before.surveys@
                &&& after.done@ == before.done@
                &&& after.reflink == before.reflink
                &&& action matches Action::AskAbout(path) && path@ == before.items@[0].source@
            } else {
                surveys_next(before, before.surveys@, after, action)
            },
        },
        (Phase::First, Event::First(capabilities)) => {
            let reflink = match capabilities {
                Some(c) => if before.preference@.contains(MaterializationStrategy::Reflink) {
                    Some(c.reflink)
                } else {
                    None
                },
                None => None,
            };
            surveys_next(Materialize { reflink, ..before }, before.surveys@, after, action)
        },
        (Phase::Surveying, Event::Surveyed(survey)) => surveys_next(
            before,
            before.surveys@.push(survey),
            after,
            action,
        ),
        (Phase::Space(needed), Event::Free(free)) => match free {
            Err(error) => gives_up(after, action, error),
            Ok(available) => if super::local::has_room(needed, available, before.margin) {
                stages_next(before, before.done@, after, action)
            } else {
                gives_up(
                    after,
                    action,
                    StagingError::InsufficientSpace {
                        needed,
                        available,
                        margin: before.margin,
                    },
                )
            },
        },
        (Phase::Staging(one), Event::One(inner)) => exists|next: StageOne, asked: stage_one::Action|
            #[trigger] stage_one::staged(one, inner, next, asked) && match asked {
                stage_one::Action::Finish(Err(error)) => gives_up(after, action, error),
                stage_one::Action::Finish(Ok(file)) => stages_next(
                    before,
                    before.done@.push(file),
                    after,
                    action,
                ),
                _ => {
                    &&& after.phase == Phase::Staging(next)
                    &&& after.done@ == before.done@
                    &&& after.reflink == before.reflink
                    &&& action == Action::One(asked)
                },
            },
        _ => false,
    }
}

fn copy_preference(preference: &Vec<MaterializationStrategy>) -> (r: Vec<MaterializationStrategy>)
    ensures
        r@ == preference@,
{
    let mut out: Vec<MaterializationStrategy> = Vec::new();
    let mut i: usize = 0;
    while i < preference.len()
        invariant
            i <= preference@.len(),
            out@ =~= preference@.take(i as int),
        decreases preference@.len() - i,
    {
        out.push(preference[i]);
        i += 1;
    }
    assert(preference@.take(i as int) =~= preference@);
    out
}

impl Materialize {
    /// Begin with the staging root.
    pub fn start(
        root: &str,
        items: Vec<PlanItem>,
        preference: Vec<MaterializationStrategy>,
        margin: u64,
    ) -> (r: (Materialize, Action))
        ensures
            r.0.root@ == root@,
            r.0.items == items,
            r.0.preference == preference,
            r.0.margin == margin,
            r.0.reflink is None,
            r.0.surveys@.len() == 0,
            r.0.done@.len() == 0,
            r.0.phase is Root,
            r.0.well_formed(),
            r.1 is LookAtRoot,
    {
        (
            Materialize {
                root: root.to_owned(),
                items,
                preference,
                margin,
                reflink: None,
                surveys: Vec::new(),
                done: Vec::new(),
                phase: Phase::Root,
            },
            Action::LookAtRoot,
        )
    }

    fn give_up(self, error: StagingError) -> (r: (Materialize, Action))
        requires
            self.surveyed_so_far(),
        ensures
            r.0.same_plan(self),
            r.0.surveys == self.surveys,
            r.0.well_formed(),
            gives_up(r.0, r.1, error),
    {
        let mut next = self;
        next.phase = Phase::Finished;
        (next, Action::Finish(Err(error)))
    }

    fn stage_next(self) -> (r: (Materialize, Action))
        requires
            self.surveyed_so_far(),
            self.done@.len() <= self.items@.len(),
        ensures
            r.0.same_plan(self),
            r.0.surveys == self.surveys,
            r.0.well_formed(),
            stages_next(self, self.done@, r.0, r.1),
    {
        let mut next = self;
        let at: usize = next.done.len();
        if at < next.items.len() {
            let (one, action) = StageOne::start(
                next.root.as_str(),
                next.items[at].clone(),
                copy_preference(&next.preference),
            );
            next.phase = Phase::Staging(one);
            (next, Action::One(action))
        } else {
            let mut files: Vec<StagedFile> = Vec::new();
            std::mem::swap(&mut next.done, &mut files);
            let mut kept: Vec<StagedFile> = Vec::new();
            let mut i: usize = 0;
            while i < files.len()
                invariant
                    i <= files@.len(),
                    files@ == self.done@,
                    kept@ =~= files@.take(i as int),
                decreases files@.len() - i,
            {
                kept.push(
                    StagedFile {
                        path: files[i].path.clone(),
                        strategy: files[i].strategy,
                        bytes: files[i].bytes,
                    },
                );
                i += 1;
            }
            assert(files@.take(i as int) =~= files@);
            next.done = kept;
            next.phase = Phase::Finished;
            let reflink = match &next.reflink {
                Some(support) => Some(support.clone()),
                None => None,
            };
            (next, Action::Finish(Ok(StagedLayout { files, reflink })))
        }
    }

    fn survey_next(self) -> (r: (Materialize, Action))
        requires
            self.surveyed_so_far(),
            self.done@.len() == 0,
        ensures
            r.0.same_plan(self),
            r.0.well_formed(),
            surveys_next(self, self.surveys@, r.0, r.1),
    {
        let at: usize = self.surveys.len();
        if at < self.items.len() {
            let mut next = self;
            next.phase = Phase::Surveying;
            return (next, Action::Survey(at));
        }
        let needed = match required_new_bytes(
            self.root.as_str(),
            &self.items,
            &self.surveys,
            &self.preference,
        ) {
            Ok(needed) => needed,
            Err(error) => {
                let ghost i = choose|i: int|
                    super::local::first_blocked(self.root@, self.items@, self.surveys@, i, error);
                proof {
                    crate::staging::safety::rejected_is_not_clear(
                        self.root@,
                        self.items@[i].destination.components(),
                        self.surveys@[i].way@,
                        error,
                    );
                }
                let r = self.give_up(error);
                assert(gives_up_over(i, r.0, r.1, error));
                return r;
            },
        };
        if needed == 0 {
            self.stage_next()
        } else {
            let mut next = self;
            next.phase = Phase::Space(needed);
            (next, Action::FindFreeSpace)
        }
    }

    fn staged_one(self, one: StageOne, inner: stage_one::Event) -> (r: (Materialize, Action))
        requires
            self.surveyed_so_far(),
            self.done@.len() < self.items@.len(),
            stage_one::fits(one, inner),
        ensures
            r.0.same_plan(self),
            r.0.well_formed(),
            materialized(
                Materialize { phase: Phase::Staging(one), ..self },
                Event::One(inner),
                r.0,
                r.1,
            ),
    {
        let ghost before = Materialize { phase: Phase::Staging(one), ..self };
        let (next_one, asked) = one.next(inner);
        let ghost next = next_one;
        let ghost told = asked;
        assert(stage_one::staged(one, inner, next, told));
        match asked {
            stage_one::Action::Finish(Err(error)) => self.give_up(error),
            stage_one::Action::Finish(Ok(file)) => {
                let mut more = self;
                more.done.push(file);
                let r = more.stage_next();
                assert(stages_next(before, before.done@.push(file), r.0, r.1));
                r
            },
            other => {
                let mut more = self;
                more.phase = Phase::Staging(next_one);
                (more, Action::One(other))
            },
        }
    }

    /// Take in what came of the last action, and say what to do next.
    pub fn next(self, event: Event) -> (r: (Materialize, Action))
        requires
            self.well_formed(),
            self.phase !is Staging ==> self.done@.len() == 0,
            fits(self, event),
        ensures
            materialized(self, event, r.0, r.1),
            r.0.well_formed(),
            r.0.phase !is Staging && r.0.phase !is Finished ==> r.0.done@.len() == 0,
    {
        let ghost start = self;
        match event {
            Event::RootDevice(Err(why)) => {
                let mut message = "cannot stat ".to_owned();
                message.append(self.root.as_str());
                message.append(": ");
                message.append(why.as_str());
                self.give_up(StagingError::Io(message))
            },
            Event::RootDevice(Ok(_)) => {
                if self.items.len() > 0 && asks_for_reflink(&self.preference) {
                    let path = self.items[0].source.clone();
                    let mut next = self;
                    next.phase = Phase::First;
                    (next, Action::AskAbout(path))
                } else {
                    self.survey_next()
                }
            },
            Event::First(capabilities) => {
                let reflink = plan_reflink_probe(&self.preference, capabilities);
                let mut next = self;
                next.reflink = reflink;
                next.survey_next()
            },
            Event::Surveyed(survey) => {
                let mut next = self;
                let ghost at = next.surveys@.len() as int;
                next.surveys.push(survey);
                assert(next.surveyed_so_far()) by {
                    assert forall|i: int| 0 <= i < next.surveys@.len() implies (
                    #[trigger] next.surveys@[i]).way@.len()
                        == next.items@[i].destination.components().len() + 1 by {
                        if i < at {
                            assert(start.surveys@[i] == next.surveys@[i]);
                        }
                    }
                }
                let ghost after_push = next;
                let r = next.survey_next();
                assert(surveys_next(start, start.surveys@.push(survey), r.0, r.1)) by {
                    assert(surveys_next(after_push, after_push.surveys@, r.0, r.1));
                }
                r
            },
            Event::Free(Err(error)) => self.give_up(error),
            Event::Free(Ok(available)) => {
                let needed: u64 = match &self.phase {
                    Phase::Space(needed) => *needed,
                    _ => 0,
                };
                match check_space(needed, available, self.margin) {
                    Ok(()) => self.stage_next(),
                    Err(error) => self.give_up(error),
                }
            },
            Event::One(inner) => {
                let mut rest = self;
                let mut phase = Phase::Finished;
                std::mem::swap(&mut rest.phase, &mut phase);
                match phase {
                    Phase::Staging(one) => {
                        let ghost bare = rest;
                        assert(start == (Materialize { phase: Phase::Staging(one), ..bare }));
                        rest.staged_one(one, inner)
                    },
                    _ => rest.give_up(StagingError::NoStrategyPermitted),
                }
            },
        }
    }
}

/// Something on disk changes.
pub open spec fn writes(action: Action) -> bool {
    match action {
        Action::One(asked) => !(asked is LookAlong || asked is LookAt || asked is LookAtSource
            || asked is AskDevices || asked is Finish),
        _ => false,
    }
}

/// Nothing is written while the plan is still looked at; and staging begins
/// only where every way is clear and there is room for all of the plan.
pub proof fn a_plan_that_does_not_fit_writes_nothing(
    before: Materialize,
    event: Event,
    after: Materialize,
    action: Action,
)
    requires
        materialized(before, event, after, action),
        before.phase !is Staging,
    ensures
        !writes(action),
        before.phase matches Phase::Space(needed) ==> (after.phase is Staging ==> (
        event matches Event::Free(Ok(available)) && super::local::has_room(
            needed,
            available,
            before.margin,
        ))),
        before.phase is Surveying && after.phase is Staging ==> super::local::costs(
            before.items@,
            after.surveys@,
            before.preference@,
        ) <= 0,
{
    if before.phase is Surveying && after.phase is Staging {
        let surveys = after.surveys@;
        assert(all_surveyed(before, surveys, after, action));
    }
}

/// Where the free space was found out, the plan is staged exactly where what it
/// needs and the margin fit into it, and given up for want of space otherwise.
pub proof fn a_plan_is_staged_where_it_fits(
    before: Materialize,
    needed: u64,
    available: u64,
    after: Materialize,
    action: Action,
)
    requires
        before.phase == Phase::Space(needed),
        materialized(before, Event::Free(Ok(available)), after, action),
        before.done@.len() < before.items@.len(),
    ensures
        needed == 0 || needed + before.margin <= available ==> (after.phase matches Phase::Staging(
            one,
        ) && one.item == before.items@[before.done@.len() as int] && one.root@ == before.root@
            && one.preference@ == before.preference@),
        0 < needed && available < needed + before.margin ==> action == Action::Finish(
            Err::<StagedLayout, StagingError>(
                StagingError::InsufficientSpace { needed, available, margin: before.margin },
            ),
        ),
{
}

/// Every file of a plan is surveyed in turn; behind the last one a symlink on any
/// way gives the plan up, and otherwise the room that is looked for is what the
/// files cost together.
pub proof fn every_file_is_surveyed(
    before: Materialize,
    survey: Survey,
    after: Materialize,
    action: Action,
    i: int,
    k: int,
)
    requires
        before.phase is Surveying,
        materialized(before, Event::Surveyed(survey), after, action),
        0 <= i < after.surveys@.len() <= before.items@.len(),
        0 <= k < after.surveys@[i].way@.len(),
    ensures
        after.surveys@ == before.surveys@.push(survey),
        after.surveys@.len() < before.items@.len() ==> action == Action::Survey(
            after.surveys@.len() as usize,
        ),
        after.surveys@.len() >= before.items@.len() && (after.surveys@[i].way@[k] is Symlink
            || after.surveys@[i].way@[k] is Unknown) ==> (action matches Action::Finish(result)
            && result is Err),
        after.phase matches Phase::Space(needed) ==> needed > 0 && (needed < u64::MAX ==> needed
            == super::local::costs(before.items@, after.surveys@, before.preference@)),
{
    if after.surveys@.len() >= before.items@.len() && (after.surveys@[i].way@[k] is Symlink
        || after.surveys@[i].way@[k] is Unknown) {
        assert(!crate::staging::safety::way_is_clear(after.surveys@[i].way@));
        assert(!all_clear(after.surveys@));
    }
    if after.surveys@.len() == before.items@.len() {
        super::local::costs_grow(before.items@, after.surveys@, before.preference@, 0);
    }
}

/// A plan is done when each of its files is: the layout holds one file for each,
/// in order, and a file that fails gives up the whole plan.
pub proof fn a_layout_holds_every_file(
    before: Materialize,
    one: StageOne,
    inner: stage_one::Event,
    after: Materialize,
    action: Action,
)
    requires
        before.phase == Phase::Staging(one),
        before.done@.len() < before.items@.len(),
        materialized(before, Event::One(inner), after, action),
    ensures
        action matches Action::Finish(Ok(layout)) ==> {
            &&& layout.files@.len() == before.items@.len()
            &&& layout.files@.drop_last() == before.done@
            &&& layout.reflink == before.reflink
        },
        after.phase matches Phase::Staging(next) ==> {
            ||| after.done@ == before.done@ && next.item == one.item && next.root == one.root
                && next.preference == one.preference
            ||| {
                &&& after.done@.len() == before.done@.len() + 1
                &&& after.done@.drop_last() == before.done@
                &&& next.item == before.items@[after.done@.len() as int]
                &&& next.root@ == before.root@
            }
        },
        action matches Action::Finish(Err(error)) ==> after.phase is Finished,
        action is Finish <==> after.phase is Finished,
{
    let (next, asked) = choose|next: StageOne, asked: stage_one::Action|
        #[trigger] stage_one::staged(one, inner, next, asked) && match asked {
            stage_one::Action::Finish(Err(error)) => gives_up(after, action, error),
            stage_one::Action::Finish(Ok(file)) => stages_next(
                before,
                before.done@.push(file),
                after,
                action,
            ),
            _ => {
                &&& after.phase == Phase::Staging(next)
                &&& after.done@ == before.done@
                &&& after.reflink == before.reflink
                &&& action == Action::One(asked)
            },
        };
    if asked is Finish && asked->Finish_0 is Ok {
        let file = asked->Finish_0->Ok_0;
        assert(before.done@.push(file).drop_last() =~= before.done@);
    }
}

} // verus!
