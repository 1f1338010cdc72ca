//! Cross-cutting operational state that the status page reads.
//!
//! Nothing here is durable and nothing here is a decision: nothing in the
//! repair workflow may come to depend on what is recorded here. It exists
//! purely to answer "what is SeedMedic doing and can it reach everything?".

use vstd::prelude::*;

use crate::clock::Timestamp;
use crate::table::Table;
use crate::tracker::TrackerId;

verus! {

/// What is known about one configured tracker: whether it is a stub adapter
/// (known at startup, from config), and, updated as polls happen, when it last
/// succeeded and what its last error was.
#[derive(Debug, PartialEq, Eq)]
pub struct TrackerHealth {
    pub stub: bool,
    pub last_success: Option<Timestamp>,
    pub last_error: Option<(Timestamp, String)>,
    /// Whether a tracker-unreachable notification has already gone out for
    /// the outage in progress. Cleared on the next success, so one outage
    /// produces one notification rather than one per poll.
    pub notified_unreachable: bool,
}

impl TrackerHealth {
    /// The last that was heard of the tracker is that it failed: there is an
    /// error on record, and no success since.
    pub open spec fn is_unreachable(self) -> bool {
        self.last_error matches Some((failed, _)) && (self.last_success matches Some(answered)
            ==> answered.unix_nanos < failed.unix_nanos)
    }

    /// Whether the tracker could not be reached when it was last tried.
    pub fn unreachable(&self) -> (r: bool)
        ensures
            r == self.is_unreachable(),
    {
        match (&self.last_error, &self.last_success) {
            (None, _) => false,
            (Some(_), None) => true,
            (Some((failed, _)), Some(answered)) => answered.unix_nanos < failed.unix_nanos,
        }
    }
}

/// Nothing is known.
pub open spec fn unknown_health() -> TrackerHealth {
    TrackerHealth {
        stub: false,
        last_success: None,
        last_error: None,
        notified_unreachable: false,
    }
}

impl Default for TrackerHealth {
    fn default() -> (r: TrackerHealth)
        ensures
            r == unknown_health(),
    {
        TrackerHealth {
            stub: false,
            last_success: None,
            last_error: None,
            notified_unreachable: false,
        }
    }
}

impl Clone for TrackerHealth {
    fn clone(&self) -> (r: TrackerHealth)
        ensures
            r == *self,
    {
        TrackerHealth {
            stub: self.stub,
            last_success: self.last_success,
            last_error: match &self.last_error {
                Some((at, message)) => Some((*at, message.clone())),
                None => None,
            },
            notified_unreachable: self.notified_unreachable,
        }
    }
}

/// What is known about every tracker.
#[derive(Debug)]
pub struct Diagnostics {
    trackers: Table<TrackerId, TrackerHealth>,
}

impl View for Diagnostics {
    type V = Map<Seq<char>, TrackerHealth>;

    closed spec fn view(&self) -> Map<Seq<char>, TrackerHealth> {
        self.trackers@
    }
}

/// What is known about a tracker.
pub open spec fn health_of(known: Map<Seq<char>, TrackerHealth>, id: Seq<char>) -> TrackerHealth {
    if known.dom().contains(id) {
        known[id]
    } else {
        unknown_health()
    }
}

/// Whether a tracker is configured, and as a stub. The last mention counts.
pub open spec fn stub_flag(configured: Seq<(TrackerId, bool)>, id: Seq<char>) -> Option<bool>
    decreases configured.len(),
{
    if configured.len() == 0 {
        None
    } else if configured.last().0@ == id {
        Some(configured.last().1)
    } else {
        stub_flag(configured.drop_last(), id)
    }
}

/// What stays known under a freshly loaded configuration.
pub open spec fn reseeded(
    known: Map<Seq<char>, TrackerHealth>,
    configured: Seq<(TrackerId, bool)>,
) -> Map<Seq<char>, TrackerHealth> {
    Map::new(
        |id: Seq<char>| stub_flag(configured, id) is Some,
        |id: Seq<char>|
            TrackerHealth { stub: stub_flag(configured, id)->0, ..health_of(known, id) },
    )
}

impl Default for Diagnostics {
    fn default() -> (r: Diagnostics)
        ensures
            r@ == Map::<Seq<char>, TrackerHealth>::empty(),
    {
        Diagnostics { trackers: Table::new() }
    }
}

impl Diagnostics {
    /// One entry per stub tracker: known up front, so the status page lists
    /// every one of them even before its first poll.
    pub fn new(stub_trackers: Vec<TrackerId>) -> (r: Diagnostics)
        ensures
            forall|id: Seq<char>|
                #![trigger r@.dom().contains(id)]
                r@.dom().contains(id) <==> exists|i: int|
                    0 <= i < stub_trackers@.len() && (#[trigger] stub_trackers@[i])@ == id,
            forall|id: Seq<char>| #[trigger]
                r@.dom().contains(id) ==> r@[id] == (TrackerHealth {
                    stub: true,
                    ..unknown_health()
                }),
    {
        let mut r = Diagnostics::default();
        let mut i: usize = 0;
        while i < stub_trackers.len()
            invariant
                i <= stub_trackers@.len(),
                forall|id: Seq<char>|
                    #![trigger r@.dom().contains(id)]
                    r@.dom().contains(id) <==> exists|k: int|
                        0 <= k < i && (#[trigger] stub_trackers@[k])@ == id,
                forall|id: Seq<char>| #[trigger]
                    r@.dom().contains(id) ==> r@[id] == (TrackerHealth {
                        stub: true,
                        ..unknown_health()
                    }),
            decreases stub_trackers@.len() - i,
        {
            let mut health = TrackerHealth::default();
            health.stub = true;
            let ghost before = r@;
            r.trackers.put(stub_trackers[i].clone(), health);
            proof {
                let name = stub_trackers@[i as int]@;
                assert(r@ == before.insert(name, health));
                assert forall|id: Seq<char>|
                    #![trigger r@.dom().contains(id)]
                    r@.dom().contains(id) <==> exists|k: int|
                        0 <= k < i + 1 && (#[trigger] stub_trackers@[k])@ == id by {
                    assert(r@.dom().contains(id) <==> before.dom().contains(id) || id == name);
                    if before.dom().contains(id) {
                        let k = choose|k: int| 0 <= k < i && (#[trigger] stub_trackers@[k])@ == id;
                        assert(stub_trackers@[k]@ == id);
                    }
                    if id == name {
                        assert(stub_trackers@[i as int]@ == id);
                    }
                }
                assert forall|id: Seq<char>| #[trigger] r@.dom().contains(id) implies r@[id] == (
                TrackerHealth { stub: true, ..unknown_health() }) by {
                    if id != name {
                        assert(before.dom().contains(id));
                    }
                }
            }
            i += 1;
        }
        r
    }

    pub fn tracker_health(&self, id: &TrackerId) -> (r: TrackerHealth)
        ensures
            r == health_of(self@, id@),
    {
        match self.trackers.get(id) {
            Some(health) => health.clone(),
            None => TrackerHealth::default(),
        }
    }

    /// Whether there is an entry for a tracker.
    pub fn knows(&self, id: &TrackerId) -> (r: bool)
        ensures
            r == self@.dom().contains(id@),
    {
        self.trackers.get(id).is_some()
    }

    pub fn record_tracker_success(&mut self, id: &TrackerId, at: Timestamp)
        ensures
            final(self)@ == old(self)@.insert(
                id@,
                (TrackerHealth {
                    last_success: Some(at),
                    notified_unreachable: false,
                    ..health_of(old(self)@, id@)
                }),
            ),
    {
        let mut health = self.tracker_health(id);
        health.last_success = Some(at);
        health.notified_unreachable = false;
        self.trackers.put(id.clone(), health);
    }

    pub fn record_tracker_error(&mut self, id: &TrackerId, at: Timestamp, message: String)
        ensures
            final(self)@ == old(self)@.insert(
                id@,
                (TrackerHealth {
                    last_error: Some((at, message)),
                    ..health_of(old(self)@, id@)
                }),
            ),
    {
        let mut health = self.tracker_health(id);
        health.last_error = Some((at, message));
        self.trackers.put(id.clone(), health);
    }

    /// Marks the current outage as already notified, so it is reported once.
    pub fn mark_tracker_unreachable_notified(&mut self, id: &TrackerId)
        ensures
            final(self)@ == old(self)@.insert(
                id@,
                (TrackerHealth { notified_unreachable: true, ..health_of(old(self)@, id@) }),
            ),
    {
        let mut health = self.tracker_health(id);
        health.notified_unreachable = true;
        self.trackers.put(id.clone(), health);
    }

    /// Reconcile tracker entries with a freshly loaded configuration.
    ///
    /// An entry for a tracker no longer configured is dropped, an entry for a
    /// newly configured one is added, and every surviving entry's `stub` flag
    /// is refreshed to match. None of that touches `last_success` or
    /// `last_error` for a tracker that remains.
    pub fn reseed(&mut self, configured: &Vec<(TrackerId, bool)>)
        ensures
            final(self)@ == reseeded(old(self)@, configured@),
    {
        let mut next: Table<TrackerId, TrackerHealth> = Table::new();
        let mut i: usize = 0;
        assert(next@ =~= reseeded(self@, configured@.take(0)));
        while i < configured.len()
            invariant
                i <= configured@.len(),
                next@ == reseeded(self@, configured@.take(i as int)),
            decreases configured@.len() - i,
        {
            let mut health = self.tracker_health(&configured[i].0);
            health.stub = configured[i].1;
            next.put(configured[i].0.clone(), health);
            proof {
                assert(configured@.take(i + 1).drop_last() =~= configured@.take(i as int));
                assert(next@ =~= reseeded(self@, configured@.take(i + 1)));
            }
            i += 1;
        }
        assert(configured@.take(i as int) =~= configured@);
        self.trackers = next;
    }
}

/// A reload keeps the history of every tracker that remains, and nothing of
/// one that does not.
pub proof fn a_reload_keeps_history(
    known: Map<Seq<char>, TrackerHealth>,
    configured: Seq<(TrackerId, bool)>,
    id: Seq<char>,
)
    ensures
        stub_flag(configured, id) is None ==> !reseeded(known, configured).dom().contains(id),
        stub_flag(configured, id) is Some ==> {
            let after = health_of(reseeded(known, configured), id);
            let before = health_of(known, id);
            &&& after.last_success == before.last_success
            &&& after.last_error == before.last_error
            &&& after.notified_unreachable == before.notified_unreachable
            &&& Some(after.stub) == stub_flag(configured, id)
        },
{
}

/// After a reload the trackers known are exactly those that are configured, each
/// a stub exactly where its last mention says so, and with what was known of it.
pub proof fn a_reload_knows_what_is_configured(
    known: Map<Seq<char>, TrackerHealth>,
    configured: Seq<(TrackerId, bool)>,
    id: Seq<char>,
)
    ensures
        reseeded(known, configured).dom().contains(id) <==> exists|i: int|
            0 <= i < configured.len() && (#[trigger] configured[i]).0@ == id,
        forall|i: int|
            #![trigger configured[i]]
            0 <= i < configured.len() && configured[i].0@ == id && (forall|j: int|
                i < j < configured.len() ==> (#[trigger] configured[j]).0@ != id)
                ==> reseeded(known, configured)[id].stub == configured[i].1,
        reseeded(known, configured).dom().contains(id) && known.dom().contains(id) ==> {
            &&& reseeded(known, configured)[id].last_success == known[id].last_success
            &&& reseeded(known, configured)[id].last_error == known[id].last_error
            &&& reseeded(known, configured)[id].notified_unreachable
                == known[id].notified_unreachable
        },
        reseeded(known, configured).dom().contains(id) && !known.dom().contains(id) ==> {
            &&& reseeded(known, configured)[id].last_success is None
            &&& reseeded(known, configured)[id].last_error is None
            &&& !reseeded(known, configured)[id].notified_unreachable
        },
{
    stub_flag_is_the_last_mention(configured, id);
}

proof fn stub_flag_is_the_last_mention(configured: Seq<(TrackerId, bool)>, id: Seq<char>)
    ensures
        stub_flag(configured, id) is Some <==> exists|i: int|
            0 <= i < configured.len() && (#[trigger] configured[i]).0@ == id,
        stub_flag(configured, id) matches Some(stub) ==> exists|i: int|
            0 <= i < configured.len() && (#[trigger] configured[i]).0@ == id && configured[i].1
                == stub && (forall|j: int|
                i < j < configured.len() ==> (#[trigger] configured[j]).0@ != id),
    decreases configured.len(),
{
    if configured.len() > 0 {
        let e = configured.len() - 1;
        let front = configured.drop_last();
        if configured[e].0@ != id {
            stub_flag_is_the_last_mention(front, id);
            assert forall|i: int| 0 <= i < e implies #[trigger] configured[i] == front[i] by {}
            if stub_flag(configured, id) is Some {
                let i = choose|i: int|
                    0 <= i < front.len() && (#[trigger] front[i]).0@ == id && front[i].1
                        == stub_flag(front, id)->0 && (forall|j: int|
                        i < j < front.len() ==> (#[trigger] front[j]).0@ != id);
                assert(configured[i] == front[i]);
                assert forall|j: int| i < j < configured.len() implies (
                #[trigger] configured[j]).0@ != id by {
                    if j < e {
                        assert(configured[j] == front[j]);
                    }
                }
            } else if exists|i: int| 0 <= i < configured.len() && (#[trigger] configured[i]).0@
                == id {
                let i = choose|i: int|
                    0 <= i < configured.len() && (#[trigger] configured[i]).0@ == id;
                assert(front[i].0@ == id);
            }
        } else {
            assert(configured[e].0@ == id);
        }
    }
}

} // verus!
