//! The operator UI's live feed.
//!
//! Fan-out only, and deliberately so: nothing in the repair workflow may come
//! to depend on what is published here. A dropped event costs a stale panel
//! until the next refetch. It must never cost a wrong decision.
//!
//! An event says *what changed*, not *what it changed to*, beyond the two or
//! three strings that let a chip update without a round trip. A hint cannot
//! leak: an event carrying settings values could carry a secret, and one
//! carrying only its number structurally cannot.

use vstd::prelude::*;

use crate::clock::Timestamp;
use crate::repair::domain::{JobId, RepairState};

verus! {

/// What changed.
#[derive(Debug, PartialEq, Eq)]
pub enum EventKind {
    /// One job moved between states.
    JobTransitioned {
        job: JobId,
        from: RepairState,
        to: RepairState,
        /// The reason's name, or `"discovered"` for the row a new job opens
        /// with.
        reason: &'static str,
    },
    /// Several jobs changed at once: a bulk action, or a discovery run that
    /// created rows. One event, not one per job, so that a bulk action cannot
    /// lag every subscriber off the channel.
    JobsChanged { jobs: Vec<JobId> },
    /// Telemetry moved without a state change: seeding progress, a recheck
    /// percentage, the tracker's unknown-answer streak.
    JobProgress { job: JobId },
    /// A worker tick, a discovery run, or a reconciliation finished.
    Activity(Activity),
    /// A tracker became reachable or unreachable.
    TrackersChanged,
    /// A config reload landed.
    ConfigReloaded { restart_needed: Vec<&'static str> },
    /// The authentication token changed, so every browser session was just
    /// invalidated.
    AuthTokenChanged,
}

/// The outcome of one of the worker's three periodic jobs.
#[derive(Clone, Copy, Debug, PartialEq, Eq, Structural)]
pub struct Activity {
    pub kind: ActivityKind,
    pub at: Option<Timestamp>,
    pub claimed: usize,
    pub advanced: usize,
    pub parked: usize,
    pub retrying: usize,
    pub rewound: usize,
    pub jobs_created: usize,
    pub trackers_failed: usize,
}

#[derive(Clone, Copy, Debug, PartialEq, Eq, Structural)]
pub enum ActivityKind {
    Tick,
    Discovery,
    Reconcile,
}

/// A tick in which nothing happened.
pub open spec fn no_activity() -> Activity {
    Activity {
        kind: ActivityKind::Tick,
        at: None,
        claimed: 0,
        advanced: 0,
        parked: 0,
        retrying: 0,
        rewound: 0,
        jobs_created: 0,
        trackers_failed: 0,
    }
}

impl Default for ActivityKind {
    fn default() -> (r: ActivityKind)
        ensures
            r is Tick,
    {
        ActivityKind::Tick
    }
}

impl Default for Activity {
    fn default() -> (r: Activity)
        ensures
            r == no_activity(),
    {
        Activity {
            kind: ActivityKind::Tick,
            at: None,
            claimed: 0,
            advanced: 0,
            parked: 0,
            retrying: 0,
            rewound: 0,
            jobs_created: 0,
            trackers_failed: 0,
        }
    }
}

/// An event with its sequence number, which lets a client tell "I missed
/// something" from "nothing happened".
#[derive(Debug, PartialEq, Eq)]
pub struct Event {
    pub seq: u64,
    pub kind: EventKind,
}

/// The three most recent activity summaries, one per kind.
#[derive(Clone, Copy, Debug, PartialEq, Eq, Structural)]
pub struct LatestActivity {
    pub tick: Option<Activity>,
    pub discovery: Option<Activity>,
    pub reconcile: Option<Activity>,
}

impl Default for LatestActivity {
    fn default() -> (r: LatestActivity)
        ensures
            r == (LatestActivity { tick: None, discovery: None, reconcile: None }),
    {
        LatestActivity { tick: None, discovery: None, reconcile: None }
    }
}

/// The activities with one more.
pub open spec fn with_activity(latest: LatestActivity, activity: Activity) -> LatestActivity {
    match activity.kind {
        ActivityKind::Tick => LatestActivity { tick: Some(activity), ..latest },
        ActivityKind::Discovery => LatestActivity { discovery: Some(activity), ..latest },
        ActivityKind::Reconcile => LatestActivity { reconcile: Some(activity), ..latest },
    }
}

/// The numbering of events, and the latest activities.
#[derive(Debug, PartialEq, Eq)]
pub struct EventBus {
    /// Monotonic. Restarts at 0 on process start, deliberately: a new process
    /// has no history to resume into, and a number carried over from a
    /// previous one must never look resumable.
    seq: u64,
    latest: LatestActivity,
}

impl Default for EventBus {
    fn default() -> (r: EventBus)
        ensures
            r.count() == 0,
            r.activities() == (LatestActivity { tick: None, discovery: None, reconcile: None }),
    {
        EventBus::new()
    }
}

impl EventBus {
    /// How many events were published.
    pub closed spec fn count(self) -> int {
        self.seq as int
    }

    /// The latest activity of each kind.
    pub closed spec fn activities(self) -> LatestActivity {
        self.latest
    }

    pub fn new() -> (r: EventBus)
        ensures
            r.count() == 0,
            r.activities() == (LatestActivity { tick: None, discovery: None, reconcile: None }),
    {
        EventBus { seq: 0, latest: LatestActivity::default() }
    }

    /// Number a change that is announced. Whether anybody listens makes no
    /// difference: a subscriber that arrives later can tell it missed something
    /// rather than believing nothing happened.
    pub fn publish(&mut self, kind: EventKind) -> (r: Event)
        requires
            old(self).count() < u64::MAX,
        ensures
            final(self).count() == old(self).count() + 1,
            r.seq == final(self).count(),
            r.kind == kind,
            final(self).activities() == match kind {
                EventKind::Activity(activity) => with_activity(old(self).activities(), activity),
                _ => old(self).activities(),
            },
    {
        match &kind {
            EventKind::Activity(activity) => self.record_activity(*activity),
            _ => {},
        }
        self.seq = self.seq + 1;
        Event { seq: self.seq, kind }
    }

    /// The sequence number of the last event published.
    pub fn seq(&self) -> (r: u64)
        ensures
            r == self.count(),
    {
        self.seq
    }

    pub fn latest_activity(&self) -> (r: LatestActivity)
        ensures
            r == self.activities(),
    {
        self.latest
    }

    fn record_activity(&mut self, activity: Activity)
        ensures
            final(self).count() == old(self).count(),
            final(self).activities() == with_activity(old(self).activities(), activity),
    {
        match activity.kind {
            ActivityKind::Tick => self.latest.tick = Some(activity),
            ActivityKind::Discovery => self.latest.discovery = Some(activity),
            ActivityKind::Reconcile => self.latest.reconcile = Some(activity),
        }
    }
}

/// An activity of one kind leaves the latest of the other kinds as they were.
pub proof fn activities_are_kept_apart(latest: LatestActivity, activity: Activity)
    ensures
        activity.kind !is Tick ==> with_activity(latest, activity).tick == latest.tick,
        activity.kind !is Discovery ==> with_activity(latest, activity).discovery
            == latest.discovery,
        activity.kind !is Reconcile ==> with_activity(latest, activity).reconcile
            == latest.reconcile,
{
}

} // verus!
