//! Tracker monitoring: turn hit-and-run warnings into repair jobs.
//!
//! Runs on its own cadence, separate from the worker, because polling trackers
//! and stepping repairs have nothing to do with each other's timing.
//!
//! Idempotent by construction: a discovery is keyed on the tracker and its
//! torrent id, so a warning that is still outstanding on the next poll updates
//! nothing.

use vstd::prelude::*;

use crate::clock::{Duration, Timestamp};
use crate::diagnostics::{Diagnostics, TrackerHealth};
use crate::events::{Activity, ActivityKind, EventKind};
use crate::notify::NotificationEvent;
use crate::repair::domain::JobId;
use crate::repair::ports::{Discovered, StoreError};
use crate::repair::store::MAX_SPAN_NANOS;
use crate::tracker::{HitAndRun, TrackerError, TrackerId};

verus! {

#[derive(Clone, Copy, Debug, PartialEq, Eq, Structural)]
pub struct DiscoverySummary {
    pub warnings_seen: usize,
    pub jobs_created: usize,
    pub trackers_failed: usize,
}

impl Default for DiscoverySummary {
    fn default() -> (r: DiscoverySummary)
        ensures
            r == (DiscoverySummary { warnings_seen: 0, jobs_created: 0, trackers_failed: 0 }),
    {
        DiscoverySummary { warnings_seen: 0, jobs_created: 0, trackers_failed: 0 }
    }
}

/// One poll of every configured tracker.
///
/// A tracker that fails is skipped. One tracker being down must not stop the
/// others, and must never be read as "no warnings".
#[derive(Debug)]
pub struct DiscoveryRun {
    pub summary: DiscoverySummary,
    /// The jobs that were created.
    pub created: Vec<JobId>,
    /// Whether a tracker became reachable or unreachable: the dashboard's
    /// integration pills have something new to show.
    pub health_changed: bool,
}

impl Default for DiscoveryRun {
    fn default() -> (r: DiscoveryRun)
        ensures
            r.summary == (DiscoverySummary {
                warnings_seen: 0,
                jobs_created: 0,
                trackers_failed: 0,
            }),
            r.created@.len() == 0,
            !r.health_changed,
    {
        DiscoveryRun {
            summary: DiscoverySummary::default(),
            created: Vec::new(),
            health_changed: false,
        }
    }
}

/// The run after a warning was recorded, or not.
pub open spec fn warning_counted(
    run: DiscoveryRun,
    discovered: Result<Discovered, StoreError>,
    after: DiscoveryRun,
) -> bool {
    &&& after.health_changed == run.health_changed
    &&& match discovered {
        Ok(found) if found.created => {
            &&& after.created@ == run.created@.push(found.id)
            &&& after.summary == (DiscoverySummary {
                jobs_created: (run.summary.jobs_created + 1) as usize,
                ..run.summary
            })
        },
        _ => {
            &&& after.created == run.created
            &&& after.summary == run.summary
        },
    }
}

/// What is announced after a run.
pub open spec fn announced(run: DiscoveryRun, now: Timestamp, r: Seq<EventKind>) -> bool {
                let jobs: int = if run.created@.len() > 0 {
        1
    } else {
        0
    };
    let trackers: int = if run.health_changed {
        1
    } else {
        0
    };
    &&& r.len() == jobs + trackers + 1
    &&& jobs > 0 ==> r[0] == (EventKind::JobsChanged { jobs: run.created })
    &&& trackers > 0 ==> r[jobs] == EventKind::TrackersChanged
    &&& r[jobs + trackers] == EventKind::Activity(
        (Activity {
            kind: ActivityKind::Discovery,
            at: Some(now),
            jobs_created: run.summary.jobs_created,
            trackers_failed: run.summary.trackers_failed,
            ..crate::events::no_activity()
        }),
    )
}


impl DiscoveryRun {
    /// The tracker failed. `health` is what was known of it before.
    pub fn tracker_failed(&mut self, health: &TrackerHealth)
        requires
            old(self).summary.trackers_failed < usize::MAX,
        ensures
            final(self).summary == (DiscoverySummary {
                trackers_failed: (old(self).summary.trackers_failed + 1) as usize,
                ..old(self).summary
            }),
            final(self).created == old(self).created,
            final(self).health_changed == (old(self).health_changed || !health.is_unreachable()),
    {
        self.summary.trackers_failed = self.summary.trackers_failed + 1;
        if !health.unreachable() {
            self.health_changed = true;
        }
    }

    /// The tracker answered with that many warnings. `health` is what was known
    /// of it before.
    pub fn tracker_answered(&mut self, health: &TrackerHealth, warnings: usize)
        requires
            old(self).summary.warnings_seen + warnings <= usize::MAX,
        ensures
            final(self).summary == (DiscoverySummary {
                warnings_seen: (old(self).summary.warnings_seen + warnings) as usize,
                ..old(self).summary
            }),
            final(self).created == old(self).created,
            final(self).health_changed == (old(self).health_changed || health.is_unreachable()),
    {
        self.summary.warnings_seen = self.summary.warnings_seen + warnings;
        if health.unreachable() {
            self.health_changed = true;
        }
    }

    /// A warning was recorded, or not. Trackers keep showing a warning until it
    /// clears, so only one that opened a new job counts.
    pub fn recorded(&mut self, discovered: &Result<Discovered, StoreError>)
        requires
            old(self).summary.jobs_created < usize::MAX,
        ensures
            warning_counted(*old(self), *discovered, *final(self)),
    {
        match discovered {
            Ok(found) => if found.created {
                self.summary.jobs_created = self.summary.jobs_created + 1;
                self.created.push(found.id);
            },
            Err(_) => {},
        }
    }

    /// What to announce after the whole run, not per tracker: a poll of five
    /// trackers is one thing that happened, and five events would just be five
    /// refetches of the same page.
    pub fn finish(self, now: Timestamp) -> (r: Vec<EventKind>)
        ensures
            announced(self, now, r@),
    {
        let mut events: Vec<EventKind> = Vec::new();
        if self.created.len() > 0 {
            events.push(EventKind::JobsChanged { jobs: self.created });
        }
        if self.health_changed {
            events.push(EventKind::TrackersChanged);
        }
        let mut activity = Activity::default();
        activity.kind = ActivityKind::Discovery;
        activity.at = Some(now);
        activity.jobs_created = self.summary.jobs_created;
        activity.trackers_failed = self.summary.trackers_failed;
        events.push(EventKind::Activity(activity));
        events
    }
}

/// The outage is to be reported now.
pub open spec fn outage_is_news(health: TrackerHealth, now: Timestamp, threshold: int) -> bool {
    !health.notified_unreachable && (health.last_success matches Some(at) && now.unix_nanos
        - at.unix_nanos >= crate::repair::store::span_or(threshold, crate::clock::secs(1800)))
}

/// Once a tracker has been unreachable since its last known success for longer
/// than the threshold, notify: once per outage, not once per poll. A tracker
/// that has never once succeeded does not qualify: that is a configuration
/// problem to catch at startup, not an outage.
pub fn notify_if_unreachable_too_long(
    tracker: &TrackerId,
    health: &TrackerHealth,
    now: Timestamp,
    threshold: Duration,
) -> (r: Option<NotificationEvent>)
    requires
        now.in_calendar(),
        health.last_success matches Some(at) ==> at.in_calendar(),
    ensures
        match r {
            None => !outage_is_news(*health, now, threshold@),
            Some(event) => {
                &&& outage_is_news(*health, now, threshold@)
                &&& event matches NotificationEvent::TrackerUnreachable {
                    tracker: name,
                    unreachable_for,
                } && name@ == tracker@ && unreachable_for@ == now.unix_nanos
                    - health.last_success->0.unix_nanos
            },
        },
{
    if health.notified_unreachable {
        return None;
    }
    let last_success = match health.last_success {
        Some(at) => at,
        None => return None,
    };
    let limit = if threshold.as_nanos() <= MAX_SPAN_NANOS {
        threshold
    } else {
        Duration::from_secs(1800)
    };
    let unreachable_for = match now.since(last_success) {
        Some(span) => span,
        None => return None,
    };
    if unreachable_for.shorter_than(limit) {
        return None;
    }
    Some(
        NotificationEvent::TrackerUnreachable {
            tracker: tracker.as_str().to_owned(),
            unreachable_for,
        },
    )
}

/// What is known of a tracker after it failed.
pub open spec fn health_after_failure(
    known: Map<Seq<char>, TrackerHealth>,
    tracker: Seq<char>,
    now: Timestamp,
    message: String,
) -> TrackerHealth {
    TrackerHealth {
        last_error: Some((now, message)),
        ..crate::diagnostics::health_of(known, tracker)
    }
}

/// What polling a tracker comes to.
pub open spec fn polled(
    run: DiscoveryRun,
    known: Map<Seq<char>, TrackerHealth>,
    tracker: Seq<char>,
    now: Timestamp,
    answer: Result<Vec<HitAndRun>, TrackerError>,
    threshold: int,
    run_after: DiscoveryRun,
    known_after: Map<Seq<char>, TrackerHealth>,
    r: Option<NotificationEvent>,
) -> bool {
    let before = crate::diagnostics::health_of(known, tracker);
    &&& run_after.created == run.created
    &&& match answer {
        Ok(warnings) => {
            &&& r is None
            &&& run_after.summary == (DiscoverySummary {
                warnings_seen: (run.summary.warnings_seen + warnings@.len()) as usize,
                ..run.summary
            })
            &&& run_after.health_changed == (run.health_changed || before.is_unreachable())
            &&& success_recorded(known, tracker, now, known_after)
        },
        Err(error) => {
            &&& run_after.summary == (DiscoverySummary {
                trackers_failed: (run.summary.trackers_failed + 1) as usize,
                ..run.summary
            })
            &&& run_after.health_changed == (run.health_changed || !before.is_unreachable())
            &&& exists|message: String| #[trigger]
                failure_recorded(known, tracker, now, message, r is Some, known_after) && message@
                    == error.sentence()
            &&& r is Some <==> outage_is_news(before, now, threshold)
            &&& r matches Some(event) ==> (event matches NotificationEvent::TrackerUnreachable {
                tracker: name,
                unreachable_for,
            } && name@ == tracker && unreachable_for@ == now.unix_nanos
                - before.last_success->0.unix_nanos)
        },
    }
}

/// Take in what polling a tracker came to: count it, remember it, and say
/// whether an outage is to be reported.
pub fn tracker_polled(
    run: &mut DiscoveryRun,
    diagnostics: &mut Diagnostics,
    tracker: &TrackerId,
    now: Timestamp,
    answer: &Result<Vec<HitAndRun>, TrackerError>,
    threshold: Duration,
) -> (r: Option<NotificationEvent>)
    requires
        now.in_calendar(),
        crate::diagnostics::health_of(old(diagnostics)@, tracker@).last_success matches Some(at)
            ==> at.in_calendar(),
        old(run).summary.trackers_failed < usize::MAX,
        answer matches Ok(warnings) ==> old(run).summary.warnings_seen + warnings@.len()
            <= usize::MAX,
    ensures
        polled(
            *old(run),
            old(diagnostics)@,
            tracker@,
            now,
            *answer,
            threshold@,
            *final(run),
            final(diagnostics)@,
            r,
        ),
{
    let before = diagnostics.tracker_health(tracker);
    match answer {
        Ok(warnings) => {
            run.tracker_answered(&before, warnings.len());
            diagnostics.record_tracker_success(tracker, now);
            None
        },
        Err(error) => {
            run.tracker_failed(&before);
            let message = error.message();
            let ghost told = message;
            diagnostics.record_tracker_error(tracker, now, message);
            let health = diagnostics.tracker_health(tracker);
            let event = notify_if_unreachable_too_long(tracker, &health, now, threshold);
            if event.is_some() {
                diagnostics.mark_tracker_unreachable_notified(tracker);
                assert(diagnostics@ =~= old(diagnostics)@.insert(
                    tracker@,
                    (TrackerHealth {
                        notified_unreachable: true,
                        ..health_after_failure(old(diagnostics)@, tracker@, now, told)
                    }),
                ));
            }
            assert(failure_recorded(
                old(diagnostics)@,
                tracker@,
                now,
                told,
                event is Some,
                diagnostics@,
            ));
            event
        },
    }
}

/// The answer is remembered, and ends the outage.
pub open spec fn success_recorded(
    known: Map<Seq<char>, TrackerHealth>,
    tracker: Seq<char>,
    now: Timestamp,
    after: Map<Seq<char>, TrackerHealth>,
) -> bool {
    after == known.insert(
        tracker,
        (TrackerHealth {
            last_success: Some(now),
            notified_unreachable: false,
            ..crate::diagnostics::health_of(known, tracker)
        }),
    )
}

/// The failure is remembered, and that it was reported where it was.
pub open spec fn failure_recorded(
    known: Map<Seq<char>, TrackerHealth>,
    tracker: Seq<char>,
    now: Timestamp,
    message: String,
    reported: bool,
    after: Map<Seq<char>, TrackerHealth>,
) -> bool {
    let health = health_after_failure(known, tracker, now, message);
    after == known.insert(
        tracker,
        (TrackerHealth {
            notified_unreachable: health.notified_unreachable || reported,
            ..health
        }),
    )
}

/// A change is announced once: after a poll that failed, only an answer is a
/// change, and after one that was answered, only a failure is. A tracker of which
/// nothing is known counts as reachable.
pub proof fn reachability_follows_the_last_poll(
    known: Map<Seq<char>, TrackerHealth>,
    tracker: Seq<char>,
    now: Timestamp,
    message: String,
    reported: bool,
    after: Map<Seq<char>, TrackerHealth>,
)
    ensures
        !crate::diagnostics::unknown_health().is_unreachable(),
        failure_recorded(known, tracker, now, message, reported, after) && (
        crate::diagnostics::health_of(known, tracker).last_success matches Some(at)
            ==> at.unix_nanos < now.unix_nanos) ==> crate::diagnostics::health_of(
            after,
            tracker,
        ).is_unreachable(),
        success_recorded(known, tracker, now, after) && (crate::diagnostics::health_of(
            known,
            tracker,
        ).last_error matches Some((at, _)) ==> at.unix_nanos <= now.unix_nanos)
            ==> !crate::diagnostics::health_of(after, tracker).is_unreachable(),
{
}

/// A tracker that never succeeded is never reported, and neither is an outage
/// that already was.
pub proof fn one_outage_is_reported_once(health: TrackerHealth, now: Timestamp, threshold: int)
    ensures
        health.last_success is None ==> !outage_is_news(health, now, threshold),
        !outage_is_news(
            (TrackerHealth { notified_unreachable: true, ..health }),
            now,
            threshold,
        ),
{
}

/// A tracker that answers has its success remembered and the outage ended; one
/// that fails has its error remembered and keeps its last success. Other trackers
/// are left as they were, and only a failure counts as one.
pub proof fn a_poll_is_remembered(
    run: DiscoveryRun,
    known: Map<Seq<char>, TrackerHealth>,
    tracker: Seq<char>,
    now: Timestamp,
    answer: Result<Vec<HitAndRun>, TrackerError>,
    threshold: int,
    run_after: DiscoveryRun,
    known_after: Map<Seq<char>, TrackerHealth>,
    r: Option<NotificationEvent>,
    other: Seq<char>,
)
    requires
        polled(run, known, tracker, now, answer, threshold, run_after, known_after, r),
        run.summary.trackers_failed < usize::MAX,
        answer matches Ok(warnings) ==> run.summary.warnings_seen + warnings@.len() <= usize::MAX,
    ensures
        known_after.dom().contains(tracker),
        known.dom().contains(tracker) ==> known_after[tracker].stub == known[tracker].stub,
        other != tracker ==> (known_after.dom().contains(other) <==> known.dom().contains(other))
            && known_after[other] == known[other],
        run_after.created == run.created,
        run_after.summary.jobs_created == run.summary.jobs_created,
        match answer {
            Ok(warnings) => {
                &&& r is None
                &&& known_after[tracker].last_success == Some(now)
                &&& !known_after[tracker].notified_unreachable
                &&& run_after.summary.warnings_seen == run.summary.warnings_seen + warnings@.len()
                &&& run_after.summary.trackers_failed == run.summary.trackers_failed
            },
            Err(error) => {
                &&& known_after[tracker].last_error matches Some((at, message))
                &&& at == now
                &&& message@ == error.sentence()
                &&& known.dom().contains(tracker) ==> known_after[tracker].last_success
                    == known[tracker].last_success
                &&& !known.dom().contains(tracker) ==> known_after[tracker].last_success is None
                &&& r is Some ==> known_after[tracker].notified_unreachable
                &&& run_after.summary.trackers_failed == run.summary.trackers_failed + 1
                &&& run_after.summary.warnings_seen == run.summary.warnings_seen
            },
        },
{
}

/// An outage is reported at the first failed poll at which the last success lies
/// the threshold or more back, and not again before the tracker has answered.
pub proof fn an_outage_is_reported_when_it_is_long_enough(
    run: DiscoveryRun,
    known: Map<Seq<char>, TrackerHealth>,
    tracker: Seq<char>,
    now: Timestamp,
    answer: Result<Vec<HitAndRun>, TrackerError>,
    threshold: int,
    run_after: DiscoveryRun,
    known_after: Map<Seq<char>, TrackerHealth>,
    r: Option<NotificationEvent>,
)
    requires
        polled(run, known, tracker, now, answer, threshold, run_after, known_after, r),
        0 <= threshold <= 9_223_372_036_854_775_807_000_000,
    ensures
        r is Some <==> {
            &&& answer is Err
            &&& known.dom().contains(tracker)
            &&& !known[tracker].notified_unreachable
            &&& known[tracker].last_success matches Some(at)
            &&& at.unix_nanos + threshold <= now.unix_nanos
        },
        r matches Some(event) ==> (event matches NotificationEvent::TrackerUnreachable {
            tracker: name,
            unreachable_for,
        } && name@ == tracker && unreachable_for@ == now.unix_nanos
            - known[tracker].last_success->0.unix_nanos),
{
}

/// A change is announced exactly where the poll turned out otherwise than the one
/// before, going by which of the last success and the last error is the later.
pub proof fn a_change_of_reachability_is_announced(
    run: DiscoveryRun,
    known: Map<Seq<char>, TrackerHealth>,
    tracker: Seq<char>,
    now: Timestamp,
    answer: Result<Vec<HitAndRun>, TrackerError>,
    threshold: int,
    run_after: DiscoveryRun,
    known_after: Map<Seq<char>, TrackerHealth>,
    r: Option<NotificationEvent>,
)
    requires
        polled(run, known, tracker, now, answer, threshold, run_after, known_after, r),
    ensures
        run_after.health_changed <==> run.health_changed || answer is Ok == (known.dom().contains(
            tracker,
        ) && match (known[tracker].last_error, known[tracker].last_success) {
            (None, _) => false,
            (Some(_), None) => true,
            (Some((failed, _)), Some(answered)) => answered.unix_nanos < failed.unix_nanos,
        }),
{
}

/// Only a warning that opened a repair counts, and it is told which one.
pub proof fn only_new_repairs_count(
    run: DiscoveryRun,
    discovered: Result<Discovered, StoreError>,
    after: DiscoveryRun,
)
    requires
        warning_counted(run, discovered, after),
        run.summary.jobs_created < usize::MAX,
    ensures
        (discovered matches Ok(found) && found.created) ==> after.created@ == run.created@.push(
            discovered->Ok_0.id,
        ) && after.summary.jobs_created == run.summary.jobs_created + 1,
        !(discovered matches Ok(found) && found.created) ==> after.created@ == run.created@
            && after.summary == run.summary,
        after.summary.warnings_seen == run.summary.warnings_seen,
        after.summary.trackers_failed == run.summary.trackers_failed,
        after.health_changed == run.health_changed,
{
}

/// A run ends with one activity; before it the new repairs are announced together,
/// where there are any, and a change of reachability, where there was one.
pub proof fn what_a_run_announces(run: DiscoveryRun, now: Timestamp, r: Seq<EventKind>)
    requires
        announced(run, now, r),
    ensures
        r.len() > 0,
        r.last() matches EventKind::Activity(activity) && activity.kind is Discovery
            && activity.at == Some(now) && activity.jobs_created == run.summary.jobs_created
            && activity.trackers_failed == run.summary.trackers_failed,
        run.created@.len() > 0 ==> (r[0] matches EventKind::JobsChanged { jobs } && jobs@
            == run.created@),
        run.health_changed <==> r.contains(EventKind::TrackersChanged),
        (exists|i: int| 0 <= i < r.len() && (#[trigger] r[i]) is JobsChanged) <==> run.created@.len()
            > 0,
{
    let jobs: int = if run.created@.len() > 0 {
        1
    } else {
        0
    };
    if run.health_changed {
        assert(r[jobs] == EventKind::TrackersChanged);
    }
    if run.created@.len() > 0 {
        assert(r[0] is JobsChanged);
    }
}

} // verus!
