//! In-process counters for the metrics page.
//!
//! Plain counters and a running average rather than a real histogram: this is
//! a nice-to-have, never something the repair workflow depends on.

use vstd::prelude::*;

use crate::clock::Duration;
use crate::table::{Pair, Table};

verus! {

/// How often a step ran, and for how long in all.
#[derive(Clone, Copy, Debug, PartialEq, Eq, Structural)]
pub struct StepDurations {
    pub count: u64,
    pub total: Duration,
}

/// The counters.
#[derive(Debug)]
pub struct Metrics {
    transitions: Table<Pair, u64>,
    step_durations: Table<String, StepDurations>,
    tracker_polls: Table<Pair, u64>,
}

/// How often something happened.
pub open spec fn times(counts: Map<(Seq<char>, Seq<char>), u64>, what: (Seq<char>, Seq<char>)) -> u64 {
    if counts.dom().contains(what) {
        counts[what]
    } else {
        0
    }
}

/// How often a step ran.
pub open spec fn runs(steps: Map<Seq<char>, StepDurations>, state: Seq<char>) -> u64 {
    if steps.dom().contains(state) {
        steps[state].count
    } else {
        0
    }
}

/// For how long a step ran in all.
pub open spec fn run_time(steps: Map<Seq<char>, StepDurations>, state: Seq<char>) -> int {
    if steps.dom().contains(state) {
        steps[state].total@
    } else {
        0
    }
}

impl Default for Metrics {
    fn default() -> (r: Metrics)
        ensures
            r.moved() == Map::<(Seq<char>, Seq<char>), u64>::empty(),
            r.stepped() == Map::<Seq<char>, StepDurations>::empty(),
            r.polled() == Map::<(Seq<char>, Seq<char>), u64>::empty(),
    {
        Metrics {
            transitions: Table::new(),
            step_durations: Table::new(),
            tracker_polls: Table::new(),
        }
    }
}

fn count_one(counts: &mut Table<Pair, u64>, first: &str, second: &str)
    requires
        times(old(counts)@, (first@, second@)) < u64::MAX,
    ensures
        final(counts)@ == old(counts)@.insert(
            (first@, second@),
            (times(old(counts)@, (first@, second@)) + 1) as u64,
        ),
{
    let name = Pair { first: first.to_owned(), second: second.to_owned() };
    let before: u64 = match counts.get(&name) {
        Some(count) => *count,
        None => 0,
    };
    counts.put(name, before + 1);
}

impl Metrics {
    /// How often a job moved from one state to another.
    pub closed spec fn moved(self) -> Map<(Seq<char>, Seq<char>), u64> {
        self.transitions@
    }

    /// How often and for how long the step of a state ran.
    pub closed spec fn stepped(self) -> Map<Seq<char>, StepDurations> {
        self.step_durations@
    }

    /// How often a tracker was polled with an outcome.
    pub closed spec fn polled(self) -> Map<(Seq<char>, Seq<char>), u64> {
        self.tracker_polls@
    }

    pub fn record_transition(&mut self, from: &str, to: &str)
        requires
            times(old(self).moved(), (from@, to@)) < u64::MAX,
        ensures
            final(self).moved() == old(self).moved().insert(
                (from@, to@),
                (times(old(self).moved(), (from@, to@)) + 1) as u64,
            ),
            final(self).stepped() == old(self).stepped(),
            final(self).polled() == old(self).polled(),
    {
        count_one(&mut self.transitions, from, to);
    }

    pub fn record_step_duration(&mut self, state: &str, elapsed: Duration)
        requires
            runs(old(self).stepped(), state@) < u64::MAX,
            run_time(old(self).stepped(), state@) + elapsed@ <= crate::clock::MAX_NANOS,
        ensures
            final(self).moved() == old(self).moved(),
            final(self).polled() == old(self).polled(),
            ({
                let now = final(self).stepped();
                let was = old(self).stepped();
                &&& now.dom() == was.dom().insert(state@)
                &&& now[state@].count == runs(was, state@) + 1
                &&& now[state@].total@ == run_time(was, state@) + elapsed@
                &&& forall|other: Seq<char>|
                    was.dom().contains(other) && other != state@ ==> now[other] == #[trigger] was[other]
            }),
    {
        let name = state.to_owned();
        let before = match self.step_durations.get(&name) {
            Some(durations) => *durations,
            None => StepDurations { count: 0, total: Duration::zero() },
        };
        let after = StepDurations {
            count: before.count + 1,
            total: before.total.saturating_add(elapsed),
        };
        self.step_durations.put(name, after);
        assert(self.stepped().dom() =~= old(self).stepped().dom().insert(state@));
    }

    /// `outcome` is one of a fixed set of literals at each call site.
    pub fn record_tracker_poll(&mut self, tracker: &str, outcome: &'static str)
        requires
            times(old(self).polled(), (tracker@, outcome@)) < u64::MAX,
        ensures
            final(self).polled() == old(self).polled().insert(
                (tracker@, outcome@),
                (times(old(self).polled(), (tracker@, outcome@)) + 1) as u64,
            ),
            final(self).moved() == old(self).moved(),
            final(self).stepped() == old(self).stepped(),
    {
        count_one(&mut self.tracker_polls, tracker, outcome);
    }

    /// Everything that was counted.
    pub fn snapshot(&self) -> (r: Snapshot)
        ensures
            transitions_listed(r.transitions@, self.moved()),
            steps_listed(r.step_durations@, self.stepped()),
            polls_listed(r.tracker_polls@, self.polled()),
    {
        Snapshot {
            transitions: list_transitions(&self.transitions),
            step_durations: list_steps(&self.step_durations),
            tracker_polls: list_polls(&self.tracker_polls),
        }
    }
}

/// The average duration of a step in whole milliseconds, in 64 bits.
pub open spec fn average(durations: StepDurations) -> u64 {
    if durations.count == 0 {
        0
    } else {
        ((durations.total@ / 1_000_000) / durations.count as int) as u64
    }
}

pub fn average_millis(durations: &StepDurations) -> (r: u64)
    ensures
        r == average(*durations),
{
    if durations.count == 0 {
        0
    } else {
        let millis: u128 = durations.total.as_millis();
        let each: u128 = millis / (durations.count as u128);
        #[verifier::truncate]
        let r: u64 = each as u64;
        r
    }
}

#[derive(Debug, PartialEq, Eq)]
pub struct Snapshot {
    pub transitions: Vec<TransitionCount>,
    pub step_durations: Vec<StepDurationSummary>,
    pub tracker_polls: Vec<TrackerPollCount>,
}

#[derive(Debug, PartialEq, Eq)]
pub struct TransitionCount {
    pub from: String,
    pub to: String,
    pub count: u64,
}

#[derive(Debug, PartialEq, Eq)]
pub struct StepDurationSummary {
    pub state: String,
    pub count: u64,
    pub average_millis: u64,
}

#[derive(Debug, PartialEq, Eq)]
pub struct TrackerPollCount {
    pub tracker: String,
    pub outcome: String,
    pub count: u64,
}

/// The list holds every count, each once.
pub open spec fn transitions_listed(
    list: Seq<TransitionCount>,
    counts: Map<(Seq<char>, Seq<char>), u64>,
) -> bool {
    &&& forall|i: int|
        0 <= i < list.len() ==> counts.dom().contains((#[trigger] list[i]).pair())
            && counts[list[i].pair()] == list[i].count
    &&& forall|what: (Seq<char>, Seq<char>)| #[trigger]
        counts.dom().contains(what) ==> exists|i: int|
            0 <= i < list.len() && (#[trigger] list[i]).pair() == what
    &&& forall|i: int, j: int|
        0 <= i < list.len() && 0 <= j < list.len() && i != j ==> (#[trigger] list[i]).pair() != (
        #[trigger] list[j]).pair()
}

/// The list holds every step, each once.
pub open spec fn steps_listed(
    list: Seq<StepDurationSummary>,
    steps: Map<Seq<char>, StepDurations>,
) -> bool {
    &&& forall|i: int|
        0 <= i < list.len() ==> steps.dom().contains((#[trigger] list[i]).state@)
            && steps[list[i].state@].count == list[i].count && average(steps[list[i].state@])
            == list[i].average_millis
    &&& forall|state: Seq<char>| #[trigger]
        steps.dom().contains(state) ==> exists|i: int|
            0 <= i < list.len() && (#[trigger] list[i]).state@ == state
    &&& forall|i: int, j: int|
        0 <= i < list.len() && 0 <= j < list.len() && i != j ==> (#[trigger] list[i]).state@ != (
        #[trigger] list[j]).state@
}

/// The list holds every count, each once.
pub open spec fn polls_listed(
    list: Seq<TrackerPollCount>,
    counts: Map<(Seq<char>, Seq<char>), u64>,
) -> bool {
    &&& forall|i: int|
        0 <= i < list.len() ==> counts.dom().contains((#[trigger] list[i]).pair())
            && counts[list[i].pair()] == list[i].count
    &&& forall|what: (Seq<char>, Seq<char>)| #[trigger]
        counts.dom().contains(what) ==> exists|i: int|
            0 <= i < list.len() && (#[trigger] list[i]).pair() == what
    &&& forall|i: int, j: int|
        0 <= i < list.len() && 0 <= j < list.len() && i != j ==> (#[trigger] list[i]).pair() != (
        #[trigger] list[j]).pair()
}

impl TransitionCount {
    pub open spec fn pair(self) -> (Seq<char>, Seq<char>) {
        (self.from@, self.to@)
    }
}

impl TrackerPollCount {
    pub open spec fn pair(self) -> (Seq<char>, Seq<char>) {
        (self.tracker@, self.outcome@)
    }
}

fn list_transitions(counts: &Table<Pair, u64>) -> (r: Vec<TransitionCount>)
    ensures
        transitions_listed(r@, counts@),
{
    let mut out: Vec<TransitionCount> = Vec::new();
    let len: usize = counts.len();
    let mut i: usize = 0;
    while i < len
        invariant
            i <= len == counts.all().len(),
            out@.len() == i,
            forall|k: int|
                0 <= k < i ==> (#[trigger] out@[k]).pair() == counts.all()[k].0@ && out@[k].count
                    == counts.all()[k].1,
        decreases len - i,
    {
        let (name, count) = counts.entry(i);
        out.push(
            TransitionCount { from: name.first.clone(), to: name.second.clone(), count: *count },
        );
        i += 1;
    }
    proof {
        assert forall|k: int| 0 <= k < out@.len() implies counts@.dom().contains(
            (#[trigger] out@[k]).pair(),
        ) && counts@[out@[k].pair()] == out@[k].count by {
            crate::table::listing_at(counts.all(), k);
        }
        assert forall|what: (Seq<char>, Seq<char>)| #[trigger]
            counts@.dom().contains(what) implies exists|k: int|
            0 <= k < out@.len() && (#[trigger] out@[k]).pair() == what by {
            let k = choose|k: int|
                0 <= k < counts.all().len() && (#[trigger] counts.all()[k]).0@ == what;
            assert(out@[k].pair() == what);
        }
    }
    out
}

fn list_steps(steps: &Table<String, StepDurations>) -> (r: Vec<StepDurationSummary>)
    ensures
        steps_listed(r@, steps@),
{
    let mut out: Vec<StepDurationSummary> = Vec::new();
    let len: usize = steps.len();
    let mut i: usize = 0;
    while i < len
        invariant
            i <= len == steps.all().len(),
            out@.len() == i,
            forall|k: int|
                0 <= k < i ==> (#[trigger] out@[k]).state@ == steps.all()[k].0@ && out@[k].count
                    == steps.all()[k].1.count && out@[k].average_millis == average(
                    steps.all()[k].1,
                ),
        decreases len - i,
    {
        let (name, durations) = steps.entry(i);
        out.push(
            StepDurationSummary {
                state: name.clone(),
                count: durations.count,
                average_millis: average_millis(durations),
            },
        );
        i += 1;
    }
    proof {
        assert forall|k: int| 0 <= k < out@.len() implies steps@.dom().contains(
            (#[trigger] out@[k]).state@,
        ) && steps@[out@[k].state@] == steps.all()[k].1 by {
            crate::table::listing_at(steps.all(), k);
        }
        assert forall|state: Seq<char>| #[trigger] steps@.dom().contains(state) implies exists|
            k: int,
        | 0 <= k < out@.len() && (#[trigger] out@[k]).state@ == state by {
            let k = choose|k: int|
                0 <= k < steps.all().len() && (#[trigger] steps.all()[k]).0@ == state;
            assert(out@[k].state@ == state);
        }
    }
    out
}

fn list_polls(counts: &Table<Pair, u64>) -> (r: Vec<TrackerPollCount>)
    ensures
        polls_listed(r@, counts@),
{
    let mut out: Vec<TrackerPollCount> = Vec::new();
    let len: usize = counts.len();
    let mut i: usize = 0;
    while i < len
        invariant
            i <= len == counts.all().len(),
            out@.len() == i,
            forall|k: int|
                0 <= k < i ==> (#[trigger] out@[k]).pair() == counts.all()[k].0@ && out@[k].count
                    == counts.all()[k].1,
        decreases len - i,
    {
        let (name, count) = counts.entry(i);
        out.push(
            TrackerPollCount {
                tracker: name.first.clone(),
                outcome: name.second.clone(),
                count: *count,
            },
        );
        i += 1;
    }
    proof {
        assert forall|k: int| 0 <= k < out@.len() implies counts@.dom().contains(
            (#[trigger] out@[k]).pair(),
        ) && counts@[out@[k].pair()] == out@[k].count by {
            crate::table::listing_at(counts.all(), k);
        }
        assert forall|what: (Seq<char>, Seq<char>)| #[trigger]
            counts@.dom().contains(what) implies exists|k: int|
            0 <= k < out@.len() && (#[trigger] out@[k]).pair() == what by {
            let k = choose|k: int|
                0 <= k < counts.all().len() && (#[trigger] counts.all()[k]).0@ == what;
            assert(out@[k].pair() == what);
        }
    }
    out
}

/// The average of a step is its whole time in milliseconds divided by how often it
/// ran.
pub proof fn what_an_average_is(durations: StepDurations)
    ensures
        durations.count == 0 ==> average(durations) == 0,
        durations.count > 0 && 0 <= durations.total@ <= 18_446_744_073_709_551_615_000_000 ==> {
            &&& average(durations) * durations.count <= durations.total@ / 1_000_000
            &&& durations.total@ / 1_000_000 < (average(durations) + 1) * durations.count
        },
{
    if durations.count > 0 && 0 <= durations.total@ <= 18_446_744_073_709_551_615_000_000 {
        let ms = durations.total@ / 1_000_000;
        let c = durations.count as int;
        vstd::arithmetic::div_mod::lemma_fundamental_div_mod(ms, c);
        let q = ms / c;
        assert(0 <= q <= ms) by (nonlinear_arith)
            requires
                0 <= ms,
                c > 0,
                q == ms / c,
        ;
        assert(q * c == c * q) by (nonlinear_arith);
        assert((q + 1) * c == c * q + c) by (nonlinear_arith);
    }
}

} // verus!
