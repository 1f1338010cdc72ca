//! The coordinator: claim work, run one step, record the result, repeat.
//!
//! The worker holds no state of its own. Everything it needs to decide what to
//! do next is in the database, which is what makes killing it at any moment
//! safe, and what makes a second one, or a restarted one, pick up cleanly.
//!
//! Driving one job is a [`Drive`]: whoever runs it performs the [`Action`] it
//! asks for and hands back the [`Event`] that came of it.

use vstd::prelude::*;
use vstd::string::*;

use super::application::StepOutcome;
use super::domain::{JobId, RepairJob, RepairState, ReviewReason, Transition, TransitionReason};
use super::policy::{retry_delay, SafetyPolicy};
use super::ports::{Applied, Changes, JobPatch, StoreError, TransitionUpdate};
use super::store::later;
use crate::clock::{Duration, Timestamp};
use crate::events::{Activity, ActivityKind, EventKind};
use crate::json::{Doc, Json};
use crate::notify::NotificationEvent;

verus! {

#[derive(Debug, PartialEq, Eq)]
pub struct WorkerConfig {
    /// Identifies this instance's leases. On startup, leases with this owner
    /// are assumed to belong to the process that just died.
    pub owner: String,
    pub lease: Duration,
    pub batch_size: i64,
    pub poll_interval: Duration,
    pub discovery_interval: Duration,
}

impl Default for WorkerConfig {
    fn default() -> (r: WorkerConfig)
        ensures
            r.owner@ == "seedmedic"@,
            r.lease@ == crate::clock::secs(300),
            r.batch_size == 4,
            r.poll_interval@ == crate::clock::secs(10),
            r.discovery_interval@ == crate::clock::secs(900),
    {
        WorkerConfig {
            owner: "seedmedic".to_owned(),
            lease: Duration::from_secs(300),
            batch_size: 4,
            poll_interval: Duration::from_secs(10),
            discovery_interval: Duration::from_secs(900),
        }
    }
}

/// What one round of the worker did.
#[derive(Clone, Copy, Debug, PartialEq, Eq, Structural)]
pub struct TickSummary {
    pub claimed: usize,
    pub advanced: usize,
    pub parked: usize,
    pub waiting: usize,
    pub retrying: usize,
    pub rewound: usize,
}

impl Default for TickSummary {
    fn default() -> (r: TickSummary)
        ensures
            r == (TickSummary {
                claimed: 0,
                advanced: 0,
                parked: 0,
                waiting: 0,
                retrying: 0,
                rewound: 0,
            }),
    {
        TickSummary { claimed: 0, advanced: 0, parked: 0, waiting: 0, retrying: 0, rewound: 0 }
    }
}

impl TickSummary {
    /// Every counter can take one more.
    pub open spec fn has_room(self) -> bool {
        &&& self.advanced < usize::MAX
        &&& self.parked < usize::MAX
        &&& self.waiting < usize::MAX
        &&& self.retrying < usize::MAX
        &&& self.rewound < usize::MAX
    }

    /// What the feed is told of the round.
    pub fn activity(&self, at: Timestamp) -> (r: Activity)
        ensures
            r == (Activity {
                kind: ActivityKind::Tick,
                at: Some(at),
                claimed: self.claimed,
                advanced: self.advanced,
                parked: self.parked,
                retrying: self.retrying,
                rewound: self.rewound,
                ..crate::events::no_activity()
            }),
    {
        let mut activity = Activity::default();
        activity.kind = ActivityKind::Tick;
        activity.at = Some(at);
        activity.claimed = self.claimed;
        activity.advanced = self.advanced;
        activity.parked = self.parked;
        activity.retrying = self.retrying;
        activity.rewound = self.rewound;
        activity
    }
}

/// The feed is told of the move.
pub open spec fn tells_of(job: JobId, transition: Transition, r: EventKind) -> bool {
    r matches EventKind::JobTransitioned { job: about, from, to, reason } && about == job && from
        == transition.spec_from() && to == transition.spec_to() && reason@
        == transition.spec_reason().name()
}

/// What the feed is told of a move.
pub fn told_of(job: JobId, transition: &Transition) -> (r: EventKind)
    ensures
        tells_of(job, *transition, r),
{
    EventKind::JobTransitioned {
        job,
        from: transition.from(),
        to: transition.to(),
        reason: transition.reason().as_str(),
    }
}

/// What an operator is told of a move, if anything.
pub open spec fn is_news(
    job: RepairJob,
    transition: Transition,
    r: Option<NotificationEvent>,
) -> bool {
    match transition.spec_reason() {
        TransitionReason::Review(why) => r matches Some(
            NotificationEvent::ParkedForReview { job: about, tracker, torrent_name, reason },
        ) && about == job.id && tracker@ == job.tracker@ && torrent_name == job.torrent_name
            && reason@ == why.name(),
        _ => if transition.spec_to() is Completed {
            r matches Some(NotificationEvent::Completed { job: about, tracker, torrent_name })
                && about == job.id && tracker@ == job.tracker@ && torrent_name == job.torrent_name
        } else {
            r is None
        },
    }
}

/// What an operator is told of a move: that the repair was parked, and over
/// what, or that it was completed. Any other move is no news.
pub fn news_of(job: &RepairJob, transition: &Transition) -> (r: Option<NotificationEvent>)
    ensures
        is_news(*job, *transition, r),
{
    match transition.reason() {
        TransitionReason::Review(why) => Some(
            NotificationEvent::ParkedForReview {
                job: job.id,
                tracker: job.tracker.as_str().to_owned(),
                torrent_name: job.torrent_name.clone(),
                reason: why.as_str(),
            },
        ),
        _ => if transition.to() == RepairState::Completed {
            Some(
                NotificationEvent::Completed {
                    job: job.id,
                    tracker: job.tracker.as_str().to_owned(),
                    torrent_name: job.torrent_name.clone(),
                },
            )
        } else {
            None
        },
    }
}

/// How to leave a job when the worker stops touching it.
#[derive(Clone, Copy, Debug, PartialEq, Eq, Structural)]
pub struct Stop {
    pub retry_at: Option<Timestamp>,
    pub count_attempt: bool,
}

impl Stop {
    /// The lease is released and the job is due immediately.
    pub open spec fn is_idle(self) -> bool {
        self.retry_at is None && !self.count_attempt
    }

    /// Release the lease and leave the job due immediately.
    pub fn idle() -> (r: Stop)
        ensures
            r.is_idle(),
    {
        Stop { retry_at: None, count_attempt: false }
    }
}

/// The moment that much later, for spans a moment can be moved by; a minute
/// later for longer ones.
pub open spec fn due(now: Timestamp, span: int) -> int {
    now.unix_nanos + super::store::span_or(span, crate::clock::secs(60))
}

/// The delay after one more failure of a job.
pub open spec fn delay_after_failure(job: RepairJob, policy: SafetyPolicy) -> int {
    super::policy::retry_nanos(
        job.attempts + 1,
        policy.retry_base_delay@,
        policy.retry_max_delay@,
    )
}

impl Stop {
    /// The job is due after its retry delay, and the failure counts.
    pub open spec fn is_retry(self, job: RepairJob, policy: SafetyPolicy, now: Timestamp) -> bool {
        &&& self.count_attempt
        &&& self.retry_at matches Some(at) && at.unix_nanos == due(
            now,
            delay_after_failure(job, policy),
        )
    }
}

/// One more failure of a job can be counted and scheduled.
pub open spec fn can_fail(job: RepairJob, policy: SafetyPolicy, now: Timestamp) -> bool {
    &&& job.attempts < u32::MAX
    &&& due(now, delay_after_failure(job, policy)) <= crate::clock::LAST_MOMENT
}

/// Schedule a job that failed once more.
pub fn stop_for_retry(job: &RepairJob, policy: &SafetyPolicy, now: Timestamp) -> (r: Stop)
    requires
        now.in_calendar(),
        can_fail(*job, *policy, now),
    ensures
        r.is_retry(*job, *policy, now),
{
    let delay = retry_delay(job.attempts + 1, policy);
    Stop {
        retry_at: Some(later(now, delay, Duration::from_secs(60))),
        count_attempt: true,
    }
}

/// What the driven job is in the middle of.
#[derive(Clone, Copy, Debug, PartialEq, Eq, Structural)]
pub enum Stage {
    /// Its step runs.
    Stepping,
    /// Its advance is recorded.
    Advancing,
    /// Its lease is renewed after an advance.
    Renewing,
    /// It is re-read after an advance.
    ReloadingAdvanced,
    /// Its rewind is recorded.
    Rewinding,
    /// It is re-read after a rewind.
    ReloadingRewound,
    /// The last thing about it is recorded. Whatever comes of that, the worker
    /// lets go of the job.
    Leaving(Stop),
    /// The worker does not touch it any more.
    Finished,
}

/// What came of an action.
#[derive(Debug, PartialEq, Eq)]
pub enum Event {
    Stepped(StepOutcome),
    /// A transition was recorded, or not.
    Recorded(Result<Applied, StoreError>),
    /// Progress was recorded, or not.
    Noted(Result<(), StoreError>),
    /// The lease was renewed (`true`), is somebody else's (`false`), or who has
    /// it is unknown.
    Renewed(Result<bool, StoreError>),
    Reloaded(Result<Option<RepairJob>, StoreError>),
}

/// What to do next for the driven job.
#[derive(Debug, PartialEq, Eq)]
pub enum Action {
    /// Run the step that its state calls for.
    Step,
    /// Record the transition.
    Record(Transition, TransitionUpdate),
    /// Record progress, without a transition and without an audit row.
    Note(JobPatch),
    RenewLease,
    Reload,
    /// Give up the lease.
    Release(Stop),
    /// The lease turned out to belong to someone else mid-drive; releasing it
    /// then would steal it back.
    Abandon,
}

/// Twice the lifecycle: enough for one rewind and a full recovery.
pub const MAX_STEPS: usize = 18;

/// Step one job repeatedly while it keeps advancing.
///
/// Bounded so neither a rewind-then-advance cycle nor a step that somehow
/// advances in a circle can spin: anything beyond [`MAX_STEPS`] waits for the
/// next round.
#[derive(Debug, PartialEq, Eq)]
pub struct Drive {
    pub job: RepairJob,
    /// How many steps may still be asked for.
    pub steps_left: usize,
    pub stage: Stage,
}

/// The event is what can come of the action that the stage stands for.
pub open spec fn fits(stage: Stage, event: Event) -> bool {
    match stage {
        Stage::Stepping => event is Stepped,
        Stage::Advancing | Stage::Rewinding => event is Recorded,
        Stage::Renewing => event is Renewed,
        Stage::ReloadingAdvanced | Stage::ReloadingRewound => event is Reloaded,
        Stage::Leaving(_) => event is Recorded || event is Noted,
        Stage::Finished => false,
    }
}

/// The transition is that one.
pub open spec fn moves(t: Transition, job: RepairJob, to: RepairState, why: TransitionReason) -> bool {
    &&& t.spec_from() == job.state
    &&& t.spec_to() == to
    &&& t.spec_reason() == why
}

/// What is recorded with a transition.
pub open spec fn tells(update: TransitionUpdate, told: Option<Doc>, learned: Changes) -> bool {
    &&& super::application::outcome::detail_doc(update.detail) == told
    &&& update.failure_reason is None
    &&& update.patch@ == learned
}

/// The job is let go.
pub open spec fn released(after: Drive, action: Action) -> bool {
    after.stage is Finished && action is Release && action->Release_0.is_idle()
}

/// The step is asked for again, unless the bound is reached.
pub open spec fn goes_on(job: RepairJob, steps_left: usize, after: Drive, action: Action) -> bool {
    if steps_left == 0 {
        released(after, action)
    } else {
        &&& after.job == job
        &&& after.steps_left == steps_left - 1
        &&& after.stage is Stepping
        &&& action is Step
    }
}

/// The job is parked for review, and let go whatever comes of that. One that
/// cannot be parked is let go at once.
pub open spec fn parked(
    before: Drive,
    reason: ReviewReason,
    told: Option<Doc>,
    learned: Changes,
    after: Drive,
    action: Action,
) -> bool {
    if before.job.state.actionable() {
        &&& after.job == before.job
        &&& after.steps_left == before.steps_left
        &&& after.stage matches Stage::Leaving(stop) && stop.is_idle()
        &&& action matches Action::Record(t, update) && moves(
            t,
            before.job,
            RepairState::AwaitingReview,
            TransitionReason::Review(reason),
        ) && tells(update, told, learned)
    } else {
        released(after, action)
    }
}

/// The retry budget is used up by one more failure.
pub open spec fn out_of_attempts(job: RepairJob, policy: SafetyPolicy) -> bool {
    job.attempts + 1 >= policy.max_attempts
}

/// What is told of a job whose retry budget is used up.
pub open spec fn exhausted_doc(job: RepairJob, error: Seq<char>) -> Doc {
    crate::json::fact("attempts"@, Doc::Number(job.attempts + 1)).with("error"@, Doc::Text(error))
}

/// What a step's outcome comes to.
pub open spec fn after_step(
    before: Drive,
    outcome: StepOutcome,
    policy: SafetyPolicy,
    now: Timestamp,
    after: Drive,
    action: Action,
) -> bool {
    match outcome {
        StepOutcome::Advance { detail, patch } => match before.job.state.spec_next() {
            None => released(after, action),
            Some(next) => {
                &&& after == (Drive { stage: Stage::Advancing, ..before })
                &&& action matches Action::Record(t, update) && moves(
                    t,
                    before.job,
                    next,
                    TransitionReason::Progress,
                ) && tells(update, super::application::outcome::detail_doc(detail), patch@)
            },
        },
        StepOutcome::Rewind { to, note } => if super::domain::legal(
            before.job.state,
            to,
            TransitionReason::Reconciliation,
            before.job.review_from_state,
        ) {
            &&& after == (Drive { stage: Stage::Rewinding, ..before })
            &&& action matches Action::Record(t, update) && moves(
                t,
                before.job,
                to,
                TransitionReason::Reconciliation,
            ) && tells(
                update,
                Some(
                    crate::json::fact("note"@, Doc::Text(note@)).with(
                        "from"@,
                        Doc::Text(before.job.state.name()),
                    ),
                ),
                super::ports::no_changes(),
            )
        } else {
            released(after, action)
        },
        StepOutcome::Review { reason, detail, patch } => parked(
            before,
            reason,
            super::application::outcome::detail_doc(detail),
            patch@,
            after,
            action,
        ),
        StepOutcome::Wait { after: span, note, patch } => {
            &&& after.job == before.job
            &&& after.steps_left == before.steps_left
            &&& after.stage matches Stage::Leaving(stop) && !stop.count_attempt && (
            stop.retry_at matches Some(at) && at.unix_nanos == due(now, span@))
            &&& action matches Action::Note(noted) && noted@ == patch@
        },
        StepOutcome::Retry { error } => if out_of_attempts(before.job, policy) {
            parked(
                before,
                ReviewReason::RetryBudgetExhausted,
                Some(exhausted_doc(before.job, error@)),
                super::ports::no_changes(),
                after,
                action,
            )
        } else {
            &&& after.stage is Finished
            &&& action matches Action::Release(stop) && stop.is_retry(before.job, policy, now)
        },
    }
}

/// What an event comes to.
pub open spec fn driven(
    before: Drive,
    event: Event,
    policy: SafetyPolicy,
    now: Timestamp,
    after: Drive,
    action: Action,
) -> bool {
    match (before.stage, event) {
        (Stage::Stepping, Event::Stepped(outcome)) => after_step(
            before,
            outcome,
            policy,
            now,
            after,
            action,
        ),
        (Stage::Advancing, Event::Recorded(recorded)) => match recorded {
            // A replayed step is as good as a first one.
            Ok(_) => after == (Drive { stage: Stage::Renewing, ..before }) && action is RenewLease,
            // Somebody else moved it. Theirs is the current truth.
            Err(StoreError::Conflict { .. }) => released(after, action),
            Err(_) => {
                &&& after.stage is Finished
                &&& action matches Action::Release(stop) && stop.is_retry(before.job, policy, now)
            },
        },
        (Stage::Renewing, Event::Renewed(renewed)) => if renewed == Ok::<bool, StoreError>(false) {
            after.stage is Finished && action is Abandon
        } else {
            after == (Drive { stage: Stage::ReloadingAdvanced, ..before }) && action is Reload
        },
        (Stage::ReloadingAdvanced, Event::Reloaded(reloaded)) => match reloaded {
            Ok(Some(job)) => if job.state.actionable() {
                goes_on(job, before.steps_left, after, action)
            } else {
                released(after, action)
            },
            _ => released(after, action),
        },
        (Stage::Rewinding, Event::Recorded(recorded)) => if recorded is Ok {
            after == (Drive { stage: Stage::ReloadingRewound, ..before }) && action is Reload
        } else {
            released(after, action)
        },
        (Stage::ReloadingRewound, Event::Reloaded(reloaded)) => match reloaded {
            Ok(Some(job)) => goes_on(job, before.steps_left, after, action),
            _ => released(after, action),
        },
        (Stage::Leaving(stop), _) => after.stage is Finished && action == Action::Release(stop),
        _ => false,
    }
}

/// How an event counts.
pub open spec fn counted(before: Drive, event: Event, was: TickSummary) -> TickSummary {
    match (before.stage, event) {
        (Stage::Stepping, Event::Stepped(outcome)) => match outcome {
            StepOutcome::Advance { .. } => was,
            StepOutcome::Rewind { .. } => TickSummary { rewound: (was.rewound + 1) as usize, ..was },
            StepOutcome::Review { .. } => TickSummary { parked: (was.parked + 1) as usize, ..was },
            StepOutcome::Wait { .. } => TickSummary { waiting: (was.waiting + 1) as usize, ..was },
            StepOutcome::Retry { .. } => TickSummary {
                retrying: (was.retrying + 1) as usize,
                ..was
            },
        },
        (Stage::Advancing, Event::Recorded(Ok(Applied::Applied))) => TickSummary {
            advanced: (was.advanced + 1) as usize,
            ..was
        },
        _ => was,
    }
}

/// The moment that the event schedules the job for can be written down, and so
/// can one more failure.
pub open spec fn can_schedule(
    before: Drive,
    event: Event,
    policy: SafetyPolicy,
    now: Timestamp,
) -> bool {
    match (before.stage, event) {
        (Stage::Stepping, Event::Stepped(StepOutcome::Wait { after, .. })) => due(now, after@)
            <= crate::clock::LAST_MOMENT,
        (Stage::Stepping, Event::Stepped(StepOutcome::Retry { .. })) => before.job.attempts
            < u32::MAX && (out_of_attempts(before.job, policy) || can_fail(
            before.job,
            policy,
            now,
        )),
        (Stage::Advancing, Event::Recorded(Err(error))) => error is Conflict || can_fail(
            before.job,
            policy,
            now,
        ),
        _ => true,
    }
}

impl Drive {
    /// Begin with a job that was claimed.
    pub fn start(job: RepairJob) -> (r: (Drive, Action))
        ensures
            goes_on(job, MAX_STEPS, r.0, r.1),
    {
        Drive { job, steps_left: MAX_STEPS, stage: Stage::Finished }.go_on()
    }

    fn go_on(self) -> (r: (Drive, Action))
        ensures
            goes_on(self.job, self.steps_left, r.0, r.1),
    {
        if self.steps_left == 0 {
            return self.release(Stop::idle());
        }
        let steps_left: usize = self.steps_left - 1;
        (Drive { job: self.job, steps_left, stage: Stage::Stepping }, Action::Step)
    }

    fn release(self, stop: Stop) -> (r: (Drive, Action))
        ensures
            r.0 == (Drive { stage: Stage::Finished, ..self }),
            r.1 == Action::Release(stop),
    {
        (self.at(Stage::Finished), Action::Release(stop))
    }

    fn at(self, stage: Stage) -> (r: Drive)
        ensures
            r == (Drive { stage, ..self }),
    {
        Drive { job: self.job, steps_left: self.steps_left, stage }
    }

    fn park(self, reason: ReviewReason, detail: Option<Json>, patch: JobPatch) -> (r: (
        Drive,
        Action,
    ))
        ensures
            parked(
                self,
                reason,
                super::application::outcome::detail_doc(detail),
                patch@,
                r.0,
                r.1,
            ),
    {
        match self.job.plan_transition(
            RepairState::AwaitingReview,
            TransitionReason::Review(reason),
        ) {
            Ok(transition) => {
                let update = TransitionUpdate { detail, failure_reason: None, patch };
                (self.at(Stage::Leaving(Stop::idle())), Action::Record(transition, update))
            },
            Err(_) => self.release(Stop::idle()),
        }
    }

    fn stepped(self, outcome: StepOutcome, policy: &SafetyPolicy, now: Timestamp) -> (r: (
        Drive,
        Action,
    ))
        requires
            self.stage is Stepping,
            now.in_calendar(),
            can_schedule(self, Event::Stepped(outcome), *policy, now),
        ensures
            after_step(self, outcome, *policy, now, r.0, r.1),
    {
        match outcome {
            StepOutcome::Advance { detail, patch } => match self.job.advance() {
                Ok(transition) => {
                    let update = TransitionUpdate { detail, failure_reason: None, patch };
                    (self.at(Stage::Advancing), Action::Record(transition, update))
                },
                Err(_) => self.release(Stop::idle()),
            },
            StepOutcome::Rewind { to, note } => match self.job.plan_transition(
                to,
                TransitionReason::Reconciliation,
            ) {
                Ok(transition) => {
                    let update = TransitionUpdate::with_detail(
                        Json::fact("note", Json::Text(note)).with(
                            "from",
                            Json::text(self.job.state.as_str()),
                        ),
                    );
                    (self.at(Stage::Rewinding), Action::Record(transition, update))
                },
                Err(_) => self.release(Stop::idle()),
            },
            StepOutcome::Review { reason, detail, patch } => self.park(reason, detail, patch),
            StepOutcome::Wait { after, note: _, patch } => {
                let stop = Stop {
                    retry_at: Some(later(now, after, Duration::from_secs(60))),
                    count_attempt: false,
                };
                (self.at(Stage::Leaving(stop)), Action::Note(patch))
            },
            StepOutcome::Retry { error } => {
                let attempts: u32 = self.job.attempts + 1;
                if attempts >= policy.max_attempts {
                    self.park(
                        ReviewReason::RetryBudgetExhausted,
                        Some(
                            Json::fact("attempts", Json::Unsigned(attempts as u64)).with(
                                "error",
                                Json::Text(error),
                            ),
                        ),
                        JobPatch::default(),
                    )
                } else {
                    let stop = stop_for_retry(&self.job, policy, now);
                    self.release(stop)
                }
            },
        }
    }

    /// Take in what came of the last action, and say what to do next.
    pub fn next(
        self,
        event: Event,
        policy: &SafetyPolicy,
        now: Timestamp,
        summary: &mut TickSummary,
    ) -> (r: (Drive, Action))
        requires
            fits(self.stage, event),
            now.in_calendar(),
            can_schedule(self, event, *policy, now),
            old(summary).has_room(),
        ensures
            driven(self, event, *policy, now, r.0, r.1),
            *final(summary) == counted(self, event, *old(summary)),
    {
        match self.stage {
            Stage::Stepping => match event {
                Event::Stepped(outcome) => {
                    match &outcome {
                        StepOutcome::Advance { .. } => {},
                        StepOutcome::Rewind { .. } => summary.rewound = summary.rewound + 1,
                        StepOutcome::Review { .. } => summary.parked = summary.parked + 1,
                        StepOutcome::Wait { .. } => summary.waiting = summary.waiting + 1,
                        StepOutcome::Retry { .. } => summary.retrying = summary.retrying + 1,
                    }
                    self.stepped(outcome, policy, now)
                },
                _ => self.release(Stop::idle()),
            },
            Stage::Advancing => match event {
                Event::Recorded(Ok(applied)) => {
                    match applied {
                        Applied::Applied => summary.advanced = summary.advanced + 1,
                        Applied::AlreadyInTargetState => {},
                    }
                    // The step that just finished may have taken a while;
                    // renew now so a long one never outlives its lease.
                    (self.at(Stage::Renewing), Action::RenewLease)
                },
                Event::Recorded(Err(StoreError::Conflict { .. })) => self.release(Stop::idle()),
                _ => {
                    let stop = stop_for_retry(&self.job, policy, now);
                    self.release(stop)
                },
            },
            Stage::Renewing => match event {
                Event::Renewed(Ok(false)) => (self.at(Stage::Finished), Action::Abandon),
                // An error says nothing about the lease: the compare-and-swap
                // still protects correctness if a race actually happened.
                _ => (self.at(Stage::ReloadingAdvanced), Action::Reload),
            },
            Stage::ReloadingAdvanced => match event {
                Event::Reloaded(Ok(Some(job))) => if job.state.is_actionable() {
                    Drive { job, steps_left: self.steps_left, stage: Stage::Finished }.go_on()
                } else {
                    self.release(Stop::idle())
                },
                _ => self.release(Stop::idle()),
            },
            Stage::Rewinding => match event {
                Event::Recorded(Ok(_)) => (self.at(Stage::ReloadingRewound), Action::Reload),
                _ => self.release(Stop::idle()),
            },
            Stage::ReloadingRewound => match event {
                Event::Reloaded(Ok(Some(job))) => Drive {
                    job,
                    steps_left: self.steps_left,
                    stage: Stage::Finished,
                }.go_on(),
                _ => self.release(Stop::idle()),
            },
            Stage::Leaving(stop) => self.release(stop),
            Stage::Finished => self.release(Stop::idle()),
        }
    }
}

/// How far along the round of one step a stage is.
pub open spec fn distance(stage: Stage) -> int {
    match stage {
        Stage::Stepping => 4,
        Stage::Advancing => 3,
        Stage::Renewing | Stage::Rewinding => 2,
        Stage::ReloadingAdvanced | Stage::ReloadingRewound | Stage::Leaving(_) => 1,
        Stage::Finished => 0,
    }
}

/// Driving a job ends: every event brings it closer to being let go.
pub proof fn driving_ends(
    before: Drive,
    event: Event,
    policy: SafetyPolicy,
    now: Timestamp,
    after: Drive,
    action: Action,
)
    requires
        driven(before, event, policy, now, after, action),
    ensures
        after.stage is Finished || 5 * after.steps_left + distance(after.stage) < 5
            * before.steps_left + distance(before.stage),
        after.stage is Finished <==> action is Release || action is Abandon,
{
}

/// The lease is abandoned only where it turned out to be somebody else's; in
/// every other case it is given up.
pub proof fn only_a_lost_lease_is_abandoned(
    before: Drive,
    event: Event,
    policy: SafetyPolicy,
    now: Timestamp,
    after: Drive,
    action: Action,
)
    requires
        driven(before, event, policy, now, after, action),
        action is Abandon,
    ensures
        before.stage is Renewing,
        event == Event::Renewed(Ok::<bool, StoreError>(false)),
{
}

/// Waiting never spends an attempt; a failure that is tried again always does.
pub proof fn waiting_costs_no_attempt(
    before: Drive,
    outcome: StepOutcome,
    policy: SafetyPolicy,
    now: Timestamp,
    after: Drive,
    action: Action,
)
    requires
        after_step(before, outcome, policy, now, after, action),
    ensures
        outcome is Wait ==> (after.stage matches Stage::Leaving(stop) && !stop.count_attempt),
        outcome is Retry ==> (action matches Action::Release(stop) ==> stop.count_attempt
            || out_of_attempts(before.job, policy)),
{
}

/// A repair is recorded as completed only when the step of a seeding repair
/// advances.
pub proof fn only_a_seeding_repair_is_completed(
    before: Drive,
    event: Event,
    policy: SafetyPolicy,
    now: Timestamp,
    after: Drive,
    action: Action,
)
    requires
        driven(before, event, policy, now, after, action),
        before.job.state.actionable(),
        action matches Action::Record(t, update) && t.spec_to() is Completed,
    ensures
        before.job.state is Seeding,
        event matches Event::Stepped(outcome) && outcome is Advance,
{
}

/// A drive begins with a step of the job that was claimed, and seventeen more can
/// follow it.
pub proof fn a_drive_begins_with_a_step(job: RepairJob, begun: Drive, action: Action)
    requires
        goes_on(job, MAX_STEPS, begun, action),
    ensures
        action is Step,
        begun.job == job,
        begun.steps_left == 17,
        begun.stage is Stepping,
{
}

/// Every outcome of a step of a repair with work is acted on: an advance is
/// recorded as a move to the next state with what was learned, a review as a
/// move to review for its reason, and a rewind as a move back to where it says,
/// if that lies behind; a wait notes what was learned and lets go until then, free
/// of charge; a failure lets go until its delay is over and costs an attempt, or
/// goes to review where it was the last one allowed.
pub proof fn every_outcome_is_acted_on(
    before: Drive,
    outcome: StepOutcome,
    policy: SafetyPolicy,
    now: Timestamp,
    after: Drive,
    action: Action,
)
    requires
        after_step(before, outcome, policy, now, after, action),
        before.job.state !is Completed,
        before.job.state !is Failed,
        before.job.state !is AwaitingReview,
    ensures
        outcome matches StepOutcome::Advance { patch, .. } ==> {
            &&& after.stage is Advancing
            &&& action matches Action::Record(t, update)
            &&& t.spec_from() == before.job.state
            &&& Some(t.spec_to()) == before.job.state.spec_next()
            &&& t.spec_reason() is Progress
            &&& update.patch@ == patch@
        },
        outcome matches StepOutcome::Review { reason, patch, .. } ==> {
            &&& after.stage is Leaving
            &&& action matches Action::Record(t, update)
            &&& t.spec_from() == before.job.state
            &&& t.spec_to() is AwaitingReview
            &&& t.spec_reason() == TransitionReason::Review(reason)
            &&& update.patch@ == patch@
        },
        outcome matches StepOutcome::Rewind { to, .. } ==> if to.spec_rank() is Some
            && to.spec_rank()->0 < before.job.state.spec_rank()->0 {
            &&& after.stage is Rewinding
            &&& action matches Action::Record(t, update)
            &&& t.spec_from() == before.job.state
            &&& t.spec_to() == to
            &&& t.spec_reason() is Reconciliation
        } else {
            after.stage is Finished && action is Release
        },
        outcome matches StepOutcome::Wait { after: span, patch, .. } ==> {
            &&& action matches Action::Note(noted)
            &&& noted@ == patch@
            &&& after.stage matches Stage::Leaving(stop)
            &&& !stop.count_attempt
            &&& stop.retry_at matches Some(at)
            &&& 0 <= span@ <= 9_223_372_036_854_775_807_000_000 ==> at.unix_nanos == now.unix_nanos
                + span@
        },
        outcome matches StepOutcome::Retry { .. } ==> if before.job.attempts + 1
            < policy.max_attempts {
            &&& after.stage is Finished
            &&& action matches Action::Release(stop)
            &&& stop.count_attempt
            &&& stop.retry_at matches Some(at)
            &&& 0 <= super::policy::retry_nanos(
                before.job.attempts + 1,
                policy.retry_base_delay@,
                policy.retry_max_delay@,
            ) <= 9_223_372_036_854_775_807_000_000 ==> at.unix_nanos == now.unix_nanos
                + super::policy::retry_nanos(
                before.job.attempts + 1,
                policy.retry_base_delay@,
                policy.retry_max_delay@,
            )
        } else {
            &&& after.stage is Leaving
            &&& action matches Action::Record(t, update)
            &&& t.spec_to() is AwaitingReview
            &&& t.spec_reason() == TransitionReason::Review(ReviewReason::RetryBudgetExhausted)
        },
{
}

/// A recorded advance, made now or before, goes on with the next state as long as
/// the lease holds and there is work and room for another step; one that could
/// not be recorded costs an attempt, unless somebody else moved the job.
pub proof fn what_follows_an_advance(
    before: Drive,
    event: Event,
    policy: SafetyPolicy,
    now: Timestamp,
    after: Drive,
    action: Action,
)
    requires
        driven(before, event, policy, now, after, action),
    ensures
        before.stage is Advancing ==> match event {
            Event::Recorded(Ok(_)) => action is RenewLease && after.stage is Renewing && after.job
                == before.job && after.steps_left == before.steps_left,
            Event::Recorded(Err(StoreError::Conflict { .. })) => action matches Action::Release(
                stop,
            ) && stop.retry_at is None && !stop.count_attempt,
            _ => action matches Action::Release(stop) && stop.retry_at is Some
                && stop.count_attempt,
        },
        before.stage is Renewing ==> match event {
            Event::Renewed(Ok(false)) => action is Abandon,
            _ => action is Reload && after.stage is ReloadingAdvanced && after.job == before.job
                && after.steps_left == before.steps_left,
        },
        before.stage is ReloadingAdvanced || before.stage is ReloadingRewound ==> match event {
            Event::Reloaded(Ok(Some(job))) => if before.steps_left > 0 && (
            before.stage is ReloadingRewound || (job.state !is Completed && job.state !is Failed
                && job.state !is AwaitingReview)) {
                action is Step && after.stage is Stepping && after.job == job && after.steps_left
                    == before.steps_left - 1
            } else {
                action matches Action::Release(stop) && stop.retry_at is None
                    && !stop.count_attempt
            },
            _ => action matches Action::Release(stop) && stop.retry_at is None
                && !stop.count_attempt,
        },
        before.stage is Rewinding ==> match event {
            Event::Recorded(Ok(_)) => action is Reload && after.stage is ReloadingRewound
                && after.job == before.job && after.steps_left == before.steps_left,
            _ => action matches Action::Release(stop) && stop.retry_at is None
                && !stop.count_attempt,
        },
        before.stage matches Stage::Leaving(stop) ==> action == Action::Release(stop),
{
}

/// Every outcome of a step but an advance counts once, under its own name; an
/// advance counts when it is recorded, and not when it had been before.
pub proof fn everything_counts_once(before: Drive, event: Event, was: TickSummary)
    requires
        was.advanced < usize::MAX,
        was.parked < usize::MAX,
        was.waiting < usize::MAX,
        was.retrying < usize::MAX,
        was.rewound < usize::MAX,
    ensures
        ({
            let now = counted(before, event, was);
            let stepped = before.stage is Stepping && event is Stepped;
            let outcome = event->Stepped_0;
            let one = |yes: bool| if yes {
                1int
            } else {
                0
            };
            &&& now.claimed == was.claimed
            &&& now.parked == was.parked + one(stepped && outcome is Review)
            &&& now.waiting == was.waiting + one(stepped && outcome is Wait)
            &&& now.retrying == was.retrying + one(stepped && outcome is Retry)
            &&& now.rewound == was.rewound + one(stepped && outcome is Rewind)
            &&& now.advanced == was.advanced + one(
                before.stage is Advancing && event == Event::Recorded(
                    Ok::<Applied, StoreError>(Applied::Applied),
                ),
            )
        }),
{
}

/// An operator is told of every repair that is parked, and over what, and of every
/// one that is completed; of any other move they are told nothing. The feed is told
/// of all of them.
pub proof fn which_moves_are_news(
    job: RepairJob,
    transition: Transition,
    r: Option<NotificationEvent>,
    feed: EventKind,
)
    requires
        is_news(job, transition, r),
        tells_of(job.id, transition, feed),
    ensures
        r is Some <==> transition.spec_reason() is Review || transition.spec_to() is Completed,
        transition.spec_reason() is Review ==> (r matches Some(
            NotificationEvent::ParkedForReview { job: about, tracker, reason, .. },
        ) && about == job.id && tracker@ == job.tracker@ && reason@
            == transition.spec_reason()->Review_0.name()),
        transition.spec_reason() !is Review && transition.spec_to() is Completed ==> (
        r matches Some(NotificationEvent::Completed { job: about, .. }) && about == job.id),
        feed matches EventKind::JobTransitioned { job: about, from, to, .. } && about == job.id
            && from == transition.spec_from() && to == transition.spec_to(),
{
}

/// What is told of a repair that failed too often: how often, and the last error.
pub proof fn what_is_told_of_an_exhausted_repair(job: RepairJob, error: Seq<char>)
    ensures
        exhausted_doc(job, error) == Doc::Object(
            seq!["attempts"@, "error"@],
            seq![Doc::Number(job.attempts + 1), Doc::Text(error)],
        ),
{
    let told = exhausted_doc(job, error);
    assert(told->Object_0 =~= seq!["attempts"@, "error"@]);
    assert(told->Object_1 =~= seq![Doc::Number(job.attempts + 1), Doc::Text(error)]);
}

} // verus!
