//! The rules that decide when automation is allowed to act.
//!
//! Pure functions over plain data. Nothing here does I/O and nothing here is
//! configurable beyond the values in [`SafetyPolicy`], with one deliberate
//! exception, marked below, that no configuration can switch off.

use vstd::prelude::*;

use super::domain::ReviewReason;
use crate::clock::{Duration, Timestamp};
use crate::library::{FileMatch, MatchConfidence, MatchPlan, UnmatchedFile, UnmatchedReason};
use crate::seeding::DataCompleteness;
use crate::staging::MaterializationStrategy;

verus! {

/// When SeedMedic may start seeding without being asked.
///
/// There is no `Always`: resuming data the client has not verified is the one
/// thing that can damage a library, so the strongest setting still requires a
/// clean recheck.
#[derive(Clone, Copy, Debug, Default, PartialEq, Eq, Structural)]
pub enum AutoResume {
    /// Every repair waits for a human, even a perfect one.
    #[default]
    Never,
    /// Resume once the client has verified the data is complete.
    WhenVerifiedComplete,
}

/// Which ways of putting library content into staging are permitted.
#[derive(Clone, Copy, Debug, PartialEq, Eq, Structural)]
pub struct MaterializationPolicy {
    /// Try copy-on-write first. Free, and safe because writes diverge.
    pub prefer_reflink: bool,
    /// Permit hardlinks. Free, but the staged file *is* the library file: see
    /// [`MaterializationStrategy::Hardlink`]. Off by default.
    pub allow_hardlink: bool,
    /// Permit a full copy. Costs disk, safe everywhere.
    pub allow_copy: bool,
}

impl Default for MaterializationPolicy {
    fn default() -> (r: MaterializationPolicy)
        ensures
            r.prefer_reflink,
            !r.allow_hardlink,
            r.allow_copy,
    {
        MaterializationPolicy { prefer_reflink: true, allow_hardlink: false, allow_copy: true }
    }
}

/// The strategy alone, if it is permitted.
pub open spec fn if_permitted(
    permitted: bool,
    strategy: MaterializationStrategy,
) -> Seq<MaterializationStrategy> {
    if permitted {
        seq![strategy]
    } else {
        Seq::empty()
    }
}

impl MaterializationPolicy {
    /// The permitted strategies: the free and safe one, the costly and safe
    /// one, and last the one that aliases the library.
    pub open spec fn order(self) -> Seq<MaterializationStrategy> {
        if_permitted(self.prefer_reflink, MaterializationStrategy::Reflink) + if_permitted(
            self.allow_copy,
            MaterializationStrategy::Copy,
        ) + if_permitted(self.allow_hardlink, MaterializationStrategy::Hardlink)
    }

    /// Strategies to try, best first.
    pub fn preference(self) -> (r: Vec<MaterializationStrategy>)
        ensures
            r@ == self.order(),
    {
        let mut order: Vec<MaterializationStrategy> = Vec::new();
        if self.prefer_reflink {
            order.push(MaterializationStrategy::Reflink);
        }
        if self.allow_copy {
            order.push(MaterializationStrategy::Copy);
        }
        // Last resort: it aliases the library, so anything else is preferable.
        if self.allow_hardlink {
            order.push(MaterializationStrategy::Hardlink);
        }
        assert(order@ =~= self.order());
        order
    }
}

/// A hardlink is tried last or not at all.
pub proof fn hardlinks_are_always_last(policy: MaterializationPolicy, i: int)
    requires
        0 <= i < policy.order().len(),
        policy.order()[i] is Hardlink,
    ensures
        policy.allow_hardlink,
        i == policy.order().len() - 1,
{
}

#[derive(Clone, Copy, Debug, PartialEq, Eq, Structural)]
pub struct SafetyPolicy {
    pub auto_resume: AutoResume,
    /// The weakest match the workflow will act on without asking.
    pub min_match_confidence: MatchConfidence,
    /// Pieces hashed per file to confirm a match, at most. `0` disables piece
    /// verification.
    pub verification_pieces: usize,
    pub materialization: MaterializationPolicy,
    /// Consecutive failures at one step before the job is parked.
    pub max_attempts: u32,
    pub retry_base_delay: Duration,
    pub retry_max_delay: Duration,
    /// How often to ask the client whether a recheck has finished. Also the
    /// floor of the adaptive backoff: [`recheck_poll_delay`] never polls
    /// faster than this.
    pub recheck_poll_interval: Duration,
    /// The cap on [`recheck_poll_delay`]'s backoff, and the interval used
    /// while a check is queued rather than running.
    pub recheck_poll_max_interval: Duration,
    /// How long a recheck may run before it is parked for review instead of
    /// polled forever. Measured from the `injected → rechecking` transition.
    pub recheck_timeout: Duration,
    /// How often to ask the tracker whether the hit-and-run is cleared.
    pub tracker_poll_interval: Duration,
    /// Floor of the tracker poll interval as a deadline approaches.
    pub tracker_poll_min_interval: Duration,
    /// Tracker answers in a row that could not be interpreted before a seeding
    /// job parks for review.
    pub max_consecutive_unknown_tracker_status: u32,
}

impl SafetyPolicy {
    /// The values that hold where nothing is configured.
    pub open spec fn is_default(self) -> bool {
        &&& self.auto_resume is Never
        &&& self.min_match_confidence is Probable
        &&& self.verification_pieces == 3
        &&& self.materialization.prefer_reflink
        &&& !self.materialization.allow_hardlink
        &&& self.materialization.allow_copy
        &&& self.max_attempts == 5
        &&& self.retry_base_delay@ == crate::clock::secs(30)
        &&& self.retry_max_delay@ == crate::clock::secs(3600)
        &&& self.recheck_poll_interval@ == crate::clock::secs(15)
        &&& self.recheck_poll_max_interval@ == crate::clock::secs(300)
        &&& self.recheck_timeout@ == crate::clock::secs(14400)
        &&& self.tracker_poll_interval@ == crate::clock::secs(900)
        &&& self.tracker_poll_min_interval@ == crate::clock::secs(60)
        &&& self.max_consecutive_unknown_tracker_status == 10
    }
}

impl Default for SafetyPolicy {
    fn default() -> (r: SafetyPolicy)
        ensures
            r.is_default(),
    {
        SafetyPolicy {
            auto_resume: AutoResume::Never,
            min_match_confidence: MatchConfidence::Probable,
            verification_pieces: 3,
            materialization: MaterializationPolicy {
                prefer_reflink: true,
                allow_hardlink: false,
                allow_copy: true,
            },
            max_attempts: 5,
            retry_base_delay: Duration::from_secs(30),
            retry_max_delay: Duration::from_secs(3600),
            recheck_poll_interval: Duration::from_secs(15),
            recheck_poll_max_interval: Duration::from_secs(300),
            recheck_timeout: Duration::from_secs(14400),
            tracker_poll_interval: Duration::from_secs(900),
            tracker_poll_min_interval: Duration::from_secs(60),
            max_consecutive_unknown_tracker_status: 10,
        }
    }
}

#[derive(Clone, Copy, Debug, PartialEq, Eq, Structural)]
pub enum DataVerdict {
    CompleteAndSafe,
    HoldForReview(ReviewReason),
}

/// The staged data may share inodes with the library: it does, or nothing is
/// known of how it got there.
pub open spec fn may_alias(materialization: Option<MaterializationStrategy>) -> bool {
    match materialization {
        Some(strategy) => strategy is Hardlink,
        None => true,
    }
}

/// What the data itself allows.
pub open spec fn verdict(
    completeness: DataCompleteness,
    materialization: Option<MaterializationStrategy>,
) -> DataVerdict {
    if completeness is Complete {
        DataVerdict::CompleteAndSafe
    } else if may_alias(materialization) {
        DataVerdict::HoldForReview(ReviewReason::AliasedIncompleteData)
    } else {
        DataVerdict::HoldForReview(ReviewReason::IncompleteData)
    }
}

/// Is the staged data something we could hand back to the swarm at all?
///
/// This rule is not configurable: **incomplete data that shares inodes with the
/// media library is never let near a running torrent.** The client would treat
/// the library file as a partial download and write the missing pieces into it.
///
/// An unknown materialization is treated as the dangerous case. If we cannot
/// say how the data got there, we do not get to assume it is safe.
pub fn assess_data(
    completeness: DataCompleteness,
    materialization: Option<MaterializationStrategy>,
) -> (r: DataVerdict)
    ensures
        r == verdict(completeness, materialization),
{
    if completeness.is_complete() {
        return DataVerdict::CompleteAndSafe;
    }
    let aliases_library: bool = match materialization {
        Some(strategy) => strategy.aliases_library_file(),
        None => true,
    };
    DataVerdict::HoldForReview(
        if aliases_library {
            ReviewReason::AliasedIncompleteData
        } else {
            ReviewReason::IncompleteData
        },
    )
}

#[derive(Clone, Copy, Debug, PartialEq, Eq, Structural)]
pub enum ResumeDecision {
    Resume,
    HoldForReview(ReviewReason),
}

/// The data's verdict first, then whether anybody said that it may start.
pub open spec fn resumption(
    completeness: DataCompleteness,
    materialization: Option<MaterializationStrategy>,
    permitted: bool,
) -> ResumeDecision {
    match verdict(completeness, materialization) {
        DataVerdict::HoldForReview(reason) => ResumeDecision::HoldForReview(reason),
        DataVerdict::CompleteAndSafe => if permitted {
            ResumeDecision::Resume
        } else {
            ResumeDecision::HoldForReview(ReviewReason::AutoResumeDisabled)
        },
    }
}

/// Decide whether a verified torrent may start seeding: [`assess_data`] first,
/// then policy. Policy can only ever make the answer more conservative.
pub fn decide_resume(
    completeness: DataCompleteness,
    materialization: Option<MaterializationStrategy>,
    policy: &SafetyPolicy,
) -> (r: ResumeDecision)
    ensures
        r == resumption(
            completeness,
            materialization,
            policy.auto_resume is WhenVerifiedComplete,
        ),
{
    decide_approved_resume(completeness, materialization, policy, false)
}

/// [`decide_resume`] for a job that an operator may have approved. Approval
/// stands in for the policy and for nothing else.
pub fn decide_approved_resume(
    completeness: DataCompleteness,
    materialization: Option<MaterializationStrategy>,
    policy: &SafetyPolicy,
    approved: bool,
) -> (r: ResumeDecision)
    ensures
        r == resumption(
            completeness,
            materialization,
            approved || policy.auto_resume is WhenVerifiedComplete,
        ),
{
    match assess_data(completeness, materialization) {
        DataVerdict::HoldForReview(reason) => ResumeDecision::HoldForReview(reason),
        DataVerdict::CompleteAndSafe => if approved || policy.auto_resume
            == AutoResume::WhenVerifiedComplete {
            ResumeDecision::Resume
        } else {
            ResumeDecision::HoldForReview(ReviewReason::AutoResumeDisabled)
        },
    }
}

/// Incomplete data that may share inodes with the library is never resumed,
/// whatever the policy says and whoever approved.
pub proof fn incomplete_aliased_data_is_never_resumed(
    completeness: DataCompleteness,
    materialization: Option<MaterializationStrategy>,
    permitted: bool,
)
    requires
        completeness !is Complete,
        may_alias(materialization),
    ensures
        resumption(completeness, materialization, permitted) == ResumeDecision::HoldForReview(
            ReviewReason::AliasedIncompleteData,
        ),
{
}

/// Only complete data is ever resumed, and policy only makes the answer more
/// conservative: what is resumed under a stricter one is resumed under a
/// laxer one.
pub proof fn policy_only_makes_resuming_rarer(
    completeness: DataCompleteness,
    materialization: Option<MaterializationStrategy>,
)
    ensures
        resumption(completeness, materialization, true) is Resume <==> verdict(
            completeness,
            materialization,
        ) is CompleteAndSafe,
        resumption(completeness, materialization, true) is Resume ==> completeness is Complete,
        resumption(completeness, materialization, false) !is Resume,
{
}

#[derive(Clone, Copy, Debug, PartialEq, Eq, Structural)]
pub enum MatchDecision {
    Accept,
    HoldForReview(ReviewReason),
}

/// What a plan deserves: one unmatched file parks the whole repair, and the
/// plan is judged by its weakest file.
pub open spec fn deserved(
    matched: Seq<FileMatch>,
    unmatched: Seq<UnmatchedFile>,
    floor: MatchConfidence,
) -> MatchDecision {
    if unmatched.len() > 0 {
        MatchDecision::HoldForReview(
            match unmatched[0].reason {
                UnmatchedReason::NoCandidate => ReviewReason::NoCandidates,
                UnmatchedReason::Ambiguous { .. } => ReviewReason::AmbiguousMatch,
            },
        )
    } else if matched.len() == 0 {
        MatchDecision::HoldForReview(ReviewReason::NoCandidates)
    } else if exists|i: int|
        0 <= i < matched.len() && (#[trigger] matched[i]).confidence.rank() < floor.rank() {
        MatchDecision::HoldForReview(ReviewReason::ConfidenceBelowPolicy)
    } else {
        MatchDecision::Accept
    }
}

/// Decide whether a match plan is good enough to stage.
///
/// A repair needs every file, so one unmatched entry parks the whole job, and
/// the plan is judged by its weakest file rather than its best.
pub fn decide_match(plan: &MatchPlan, policy: &SafetyPolicy) -> (r: MatchDecision)
    ensures
        r == deserved(plan.matched@, plan.unmatched@, policy.min_match_confidence),
{
    if plan.unmatched.len() > 0 {
        return MatchDecision::HoldForReview(
            match plan.unmatched[0].reason {
                UnmatchedReason::NoCandidate => ReviewReason::NoCandidates,
                UnmatchedReason::Ambiguous { .. } => ReviewReason::AmbiguousMatch,
            },
        );
    }
    match plan.lowest_confidence() {
        None => MatchDecision::HoldForReview(ReviewReason::NoCandidates),
        Some(confidence) => {
            proof {
                let i = choose|i: int|
                    0 <= i < plan.matched@.len() && (#[trigger] plan.matched@[i]).confidence
                        == confidence;
                assert(plan.matched@[i].confidence == confidence);
            }
            if confidence.weaker_than(policy.min_match_confidence) {
                MatchDecision::HoldForReview(ReviewReason::ConfidenceBelowPolicy)
            } else {
                MatchDecision::Accept
            }
        },
    }
}

/// A plan is accepted exactly when every file is matched, at least one, and
/// none below the floor.
pub proof fn only_a_whole_and_sure_plan_is_accepted(
    matched: Seq<FileMatch>,
    unmatched: Seq<UnmatchedFile>,
    floor: MatchConfidence,
)
    ensures
        deserved(matched, unmatched, floor) is Accept <==> {
            &&& unmatched.len() == 0
            &&& matched.len() > 0
            &&& forall|i: int|
                0 <= i < matched.len() ==> (#[trigger] matched[i]).confidence.rank()
                    >= floor.rank()
        },
{
}

/// How long to wait before polling a *queued* check again. A queued check is
/// not making progress at all, so it is worth even less frequent polling than
/// a running one ever backs off to.
pub fn queued_recheck_poll_delay(policy: &SafetyPolicy) -> (r: Duration)
    ensures
        r == policy.recheck_poll_max_interval,
{
    policy.recheck_poll_max_interval
}

/// Double `delay` as long as that much time has passed and the cap is not
/// reached; never more than the cap.
pub open spec fn backoff(delay: int, elapsed: int, cap: int) -> int
    decreases
            (if delay < cap {
                cap - delay
            } else {
                0
            }),
{
    if 0 < delay <= elapsed && delay < cap {
        backoff(2 * delay, elapsed, cap)
    } else if delay <= cap {
        delay
    } else {
        cap
    }
}

/// How long to wait for the next look at a check that has run that long.
pub open spec fn poll_nanos(base: int, elapsed: int, cap: int) -> int {
    if base == 0 {
        cap
    } else {
        backoff(base, elapsed, cap)
    }
}

/// How long to wait before polling a *running* check again, given how long it
/// has already run. Starts at `recheck_poll_interval` and doubles each time
/// that much time has passed again, capped at `recheck_poll_max_interval`: a
/// 40-minute check does not need a request every 15 seconds throughout, but a
/// check that finishes on the first poll should never notice the schedule.
pub fn recheck_poll_delay(elapsed: Duration, policy: &SafetyPolicy) -> (r: Duration)
    ensures
        r@ == poll_nanos(
            policy.recheck_poll_interval@,
            elapsed@,
            policy.recheck_poll_max_interval@,
        ),
{
    let base = policy.recheck_poll_interval;
    let cap = policy.recheck_poll_max_interval;
    if base.is_zero() {
        return cap;
    }
    let mut delay = base;
    while !elapsed.shorter_than(delay) && delay.shorter_than(cap)
        invariant
            0 < delay@,
            backoff(base@, elapsed@, cap@) == backoff(delay@, elapsed@, cap@),
        decreases
                (if delay@ < cap@ {
                    cap@ - delay@
                } else {
                    0
                }),
    {
        let ghost before = delay@;
        delay = delay.saturating_mul(2);
        proof {
            assert(backoff(before, elapsed@, cap@) == backoff(2 * before, elapsed@, cap@));
            if 2 * before > crate::clock::MAX_NANOS {
                assert(backoff(2 * before, elapsed@, cap@) == cap@);
                assert(backoff(delay@, elapsed@, cap@) == cap@);
            }
        }
    }
    delay.at_most(cap)
}

/// The schedule never polls faster than the base interval nor slower than the
/// cap, a check that just started is polled at the base interval, and the
/// longer a check has run the longer the wait.
pub proof fn recheck_backoff_is_orderly(base: int, cap: int, early: int, late: int)
    requires
        0 < base <= cap,
        0 <= early <= late,
    ensures
        base <= backoff(base, early, cap) <= backoff(base, late, cap) <= cap,
        backoff(base, 0, cap) == base,
        late >= cap ==> backoff(base, late, cap) == cap,
{
    backoff_is_bounded(base, early, cap);
    backoff_is_bounded(base, late, cap);
    backoff_is_monotone(base, early, late, cap);
}

proof fn backoff_is_bounded(base: int, elapsed: int, cap: int)
    requires
        0 < base <= cap,
    ensures
        base <= backoff(base, elapsed, cap) <= cap,
        elapsed >= cap ==> backoff(base, elapsed, cap) == cap,
    decreases cap - base,
{
    reveal_with_fuel(backoff, 2);
    if base <= elapsed && base < cap && 2 * base <= cap {
        backoff_is_bounded(2 * base, elapsed, cap);
    }
}

proof fn backoff_is_monotone(base: int, early: int, late: int, cap: int)
    requires
        0 < base <= cap,
        early <= late,
    ensures
        backoff(base, early, cap) <= backoff(base, late, cap),
    decreases cap - base,
{
    reveal_with_fuel(backoff, 2);
    if base <= late && base < cap && 2 * base <= cap {
        if base <= early {
            backoff_is_monotone(2 * base, early, late, cap);
        }
        backoff_is_bounded(2 * base, late, cap);
    }
}

/// How long a check has run.
pub open spec fn elapsed_nanos(started_at: Option<Timestamp>, now: Timestamp) -> int {
    match started_at {
        Some(start) => if start.unix_nanos <= now.unix_nanos {
            now.unix_nanos - start.unix_nanos
        } else {
            0
        },
        None => 0,
    }
}

/// How long a check has been running, from the `injected → rechecking`
/// transition timestamp recorded on the job. `None` (a check that somehow has
/// no recorded start) is treated as just started, never as overdue; so is a
/// start that lies in the future.
pub fn recheck_elapsed(started_at: Option<Timestamp>, now: Timestamp) -> (r: Duration)
    requires
        now.in_calendar(),
        started_at matches Some(start) ==> start.in_calendar(),
    ensures
        r@ == elapsed_nanos(started_at, now),
{
    match started_at {
        Some(start) => match now.since(start) {
            Some(elapsed) => elapsed,
            None => Duration::zero(),
        },
        None => Duration::zero(),
    }
}

/// Two to the power `k`.
pub open spec fn two_to(k: nat) -> int
    decreases k,
{
    if k == 0 {
        1
    } else {
        2 * two_to((k - 1) as nat)
    }
}

/// The doublings after that many failures: none after the first, and at most
/// sixteen.
pub open spec fn doublings(attempts: int) -> nat {
    if attempts <= 1 {
        0
    } else if attempts <= 17 {
        (attempts - 1) as nat
    } else {
        16
    }
}

/// Exponential backoff, capped.
pub open spec fn retry_nanos(attempts: int, base: int, max: int) -> int {
    let full = base * two_to(doublings(attempts));
    if full <= max {
        full
    } else {
        max
    }
}

/// Exponential backoff, capped. `attempts` is the number of failures so far.
pub fn retry_delay(attempts: u32, policy: &SafetyPolicy) -> (r: Duration)
    ensures
        r@ == retry_nanos(
            attempts as int,
            policy.retry_base_delay@,
            policy.retry_max_delay@,
        ),
{
    let exponent: u32 = if attempts <= 1 {
        0
    } else if attempts <= 17 {
        attempts - 1
    } else {
        16
    };
    let mut factor: u32 = 1;
    let mut k: u32 = 0;
    while k < exponent
        invariant
            k <= exponent <= 16,
            factor == two_to(k as nat),
        decreases exponent - k,
    {
        proof {
            powers_are_ordered((k + 1) as nat, 16);
            assert(two_to(16) == 65536) by {
                reveal_with_fuel(two_to, 17);
            }
        }
        factor = factor * 2;
        k += 1;
    }
    policy.retry_base_delay.saturating_mul(factor).at_most(policy.retry_max_delay)
}

/// Backoff never shrinks from one failure to the next, never exceeds the
/// configured maximum, and starts at the base delay.
pub proof fn retry_backoff_grows_and_is_capped(attempts: int, base: int, max: int)
    requires
        attempts >= 1,
        0 <= base,
        0 <= max,
    ensures
        retry_nanos(attempts, base, max) <= retry_nanos(attempts + 1, base, max) <= max,
        base <= max ==> retry_nanos(1, base, max) == base,
        attempts >= 17 ==> retry_nanos(attempts, base, max) == retry_nanos(17, base, max),
{
    let k = doublings(attempts);
    let next = doublings(attempts + 1);
    assert(two_to(0) == 1);
    assert(base * 1 == base);
    powers_are_positive(k);
    if next != k {
        assert(two_to(next) == 2 * two_to(k));
        assert(base * two_to(k) <= base * (2 * two_to(k))) by (nonlinear_arith)
            requires
                0 <= base,
                two_to(k) >= 1,
        ;
    }
}

proof fn powers_are_ordered(a: nat, b: nat)
    requires
        a <= b,
    ensures
        two_to(a) <= two_to(b),
    decreases b,
{
    if a < b {
        powers_are_ordered(a, (b - 1) as nat);
        powers_are_positive((b - 1) as nat);
    }
}

proof fn powers_are_positive(k: nat)
    ensures
        two_to(k) >= 1,
    decreases k,
{
    if k > 0 {
        powers_are_positive((k - 1) as nat);
    }
}

/// A share of the delay, picked by the jitter.
pub open spec fn jittered(computed: int, jitter: u64) -> int {
    if computed > 0 {
        jitter as int % computed + 1
    } else {
        1
    }
}

/// [`retry_delay`], spread out by full jitter so jobs failing against the same
/// down tracker do not retry in lockstep and hammer it in bursts.
///
/// `jitter` is the randomness source, supplied by the caller rather than drawn
/// from a generator here, so this stays a pure function: the same inputs
/// always give the same delay. The result is uniform over `(0, computed]`,
/// never zero, because a zero delay would turn a failing job into a hot loop.
pub fn retry_delay_with_jitter(attempts: u32, policy: &SafetyPolicy, jitter: u64) -> (r: Duration)
    ensures
        ({
            let computed = retry_nanos(
                attempts as int,
                policy.retry_base_delay@,
                policy.retry_max_delay@,
            );
            &&& r@ == jittered(computed, jitter)
            &&& r@ > 0
            &&& computed > 0 ==> r@ <= computed
        }),
{
    let delay: u128 = retry_delay(attempts, policy).as_nanos();
    let base: u128 = if delay > 0 {
        delay
    } else {
        1
    };
    let spread: u128 = jitter as u128 % base + 1;
    match Duration::checked_from_nanos(spread) {
        Some(r) => r,
        None => Duration::zero(),
    }
}

/// The strategies that a policy permits are tried, each once, the ones it does
/// not permit never: copy-on-write before a copy, and a hardlink behind both.
pub proof fn permitted_strategies_in_order(policy: MaterializationPolicy)
    ensures
        policy.order().contains(MaterializationStrategy::Reflink) <==> policy.prefer_reflink,
        policy.order().contains(MaterializationStrategy::Copy) <==> policy.allow_copy,
        policy.order().contains(MaterializationStrategy::Hardlink) <==> policy.allow_hardlink,
        forall|i: int, j: int|
            0 <= i < j < policy.order().len() ==> {
                &&& #[trigger] policy.order()[i] != #[trigger] policy.order()[j]
                &&& policy.order()[i] !is Hardlink
                &&& policy.order()[j] !is Reflink
            },
{
    let order = policy.order();
    if policy.prefer_reflink {
        assert(order[0] is Reflink);
    }
    if policy.allow_copy {
        assert(order[if policy.prefer_reflink {
            1int
        } else {
            0
        }] is Copy);
    }
    if policy.allow_hardlink {
        assert(order[order.len() - 1] is Hardlink);
    }
    assert forall|s: MaterializationStrategy| #[trigger] order.contains(s) implies (match s {
        MaterializationStrategy::Reflink => policy.prefer_reflink,
        MaterializationStrategy::Copy => policy.allow_copy,
        MaterializationStrategy::Hardlink => policy.allow_hardlink,
    }) by {
        let i = choose|i: int| 0 <= i < order.len() && order[i] == s;
    }
}

/// Data may be resumed exactly where all of it is there and somebody allowed it.
/// All of it there and nobody allowing it waits for a human; anything less is
/// held whoever allows it, and apart where it may share its bytes with the
/// library: it was hardlinked, or it is not known how it got there.
pub proof fn what_resuming_depends_on(
    completeness: DataCompleteness,
    materialization: Option<MaterializationStrategy>,
    permitted: bool,
)
    ensures
        resumption(completeness, materialization, permitted) == if completeness is Complete {
            if permitted {
                ResumeDecision::Resume
            } else {
                ResumeDecision::HoldForReview(ReviewReason::AutoResumeDisabled)
            }
        } else if materialization == Some(MaterializationStrategy::Copy) || materialization == Some(
            MaterializationStrategy::Reflink,
        ) {
            ResumeDecision::HoldForReview(ReviewReason::IncompleteData)
        } else {
            ResumeDecision::HoldForReview(ReviewReason::AliasedIncompleteData)
        },
        verdict(completeness, materialization) is CompleteAndSafe <==> completeness is Complete,
{
}

/// Confidence grows from an ambiguous match over a probable one and an
/// operator's choice to one that is verified; a plan with an unmatched file is
/// held for what the first of them lacks, and a plan without any is held where
/// some match is weaker than the floor.
pub proof fn what_a_plan_is_held_for(
    matched: Seq<FileMatch>,
    unmatched: Seq<UnmatchedFile>,
    floor: MatchConfidence,
)
    ensures
        MatchConfidence::Ambiguous.rank() < MatchConfidence::Probable.rank()
            < MatchConfidence::Operator.rank() < MatchConfidence::Exact.rank(),
        unmatched.len() > 0 ==> deserved(matched, unmatched, floor)
            == MatchDecision::HoldForReview(
            if unmatched[0].reason is NoCandidate {
                ReviewReason::NoCandidates
            } else {
                ReviewReason::AmbiguousMatch
            },
        ),
        unmatched.len() == 0 && matched.len() == 0 ==> deserved(matched, unmatched, floor)
            == MatchDecision::HoldForReview(ReviewReason::NoCandidates),
        unmatched.len() == 0 && matched.len() > 0 ==> (deserved(matched, unmatched, floor)
            == MatchDecision::HoldForReview(ReviewReason::ConfidenceBelowPolicy) <==> exists|i: int|
            0 <= i < matched.len() && (#[trigger] matched[i]).confidence.rank() < floor.rank()),
{
}

/// A running check is next looked at after an interval that is longer than it has
/// run so far, unless that is the longest; and it is the shortest of the doubled
/// intervals that is.
pub proof fn a_check_is_polled_at_the_first_interval_it_has_not_outrun(
    base: int,
    elapsed: int,
    cap: int,
)
    requires
        0 < base <= cap,
    ensures
        backoff(base, elapsed, cap) < cap ==> elapsed < backoff(base, elapsed, cap),
        base < backoff(base, elapsed, cap) < cap ==> backoff(base, elapsed, cap) <= 2 * elapsed,
        elapsed < base ==> backoff(base, elapsed, cap) == base,
        base <= elapsed && 2 * base <= cap ==> backoff(base, elapsed, cap) == backoff(
            2 * base,
            elapsed,
            cap,
        ),
    decreases cap - base,
{
    reveal_with_fuel(backoff, 2);
    if base <= elapsed && base < cap && 2 * base <= cap {
        a_check_is_polled_at_the_first_interval_it_has_not_outrun(2 * base, elapsed, cap);
    }
}

/// Each further failure doubles the wait, up to the seventeenth, as long as that
/// stays within the longest.
pub proof fn each_failure_doubles_the_wait(attempts: int, base: int, max: int)
    requires
        1 <= attempts < 17,
        0 <= base,
        2 * retry_nanos(attempts, base, max) <= max,
        retry_nanos(attempts, base, max) < max,
    ensures
        retry_nanos(attempts + 1, base, max) == 2 * retry_nanos(attempts, base, max),
        retry_nanos(0, base, max) == retry_nanos(1, base, max),
{
    let k = doublings(attempts);
    assert(doublings(attempts + 1) == k + 1);
    assert(two_to((k + 1) as nat) == 2 * two_to(k));
    assert(base * (2 * two_to(k)) == 2 * (base * two_to(k))) by (nonlinear_arith);
}

/// The policy where nothing is configured: nothing is resumed unasked, a match
/// must be probable, hardlinks are off, five failures are enough, and the times
/// are these, in nanoseconds.
pub proof fn what_the_default_policy_is(policy: SafetyPolicy)
    requires
        policy.is_default(),
    ensures
        policy.auto_resume == AutoResume::Never,
        policy.min_match_confidence == MatchConfidence::Probable,
        policy.verification_pieces == 3,
        policy.materialization.order() == seq![
            MaterializationStrategy::Reflink,
            MaterializationStrategy::Copy,
        ],
        policy.max_attempts == 5,
        policy.retry_base_delay@ == 30_000_000_000,
        policy.retry_max_delay@ == 3_600_000_000_000,
        policy.recheck_poll_interval@ == 15_000_000_000,
        policy.recheck_poll_max_interval@ == 300_000_000_000,
        policy.recheck_timeout@ == 14_400_000_000_000,
        policy.tracker_poll_interval@ == 900_000_000_000,
        policy.tracker_poll_min_interval@ == 60_000_000_000,
        policy.max_consecutive_unknown_tracker_status == 10,
{
    assert(policy.materialization.order() =~= seq![
        MaterializationStrategy::Reflink,
        MaterializationStrategy::Copy,
    ]);
}

/// A check without a start on record, or with one that lies ahead, has just
/// started; any other has run since its start.
pub proof fn how_long_a_check_has_run(start: Timestamp, now: Timestamp)
    ensures
        elapsed_nanos(None, now) == 0,
        now.unix_nanos <= start.unix_nanos ==> elapsed_nanos(Some(start), now) == 0,
        start.unix_nanos <= now.unix_nanos ==> start.unix_nanos + elapsed_nanos(Some(start), now)
            == now.unix_nanos,
{
}

/// A check is looked at no sooner than the first interval and no later than the
/// longest; where the first is none, at the longest.
pub proof fn a_check_is_looked_at_between_the_intervals(base: int, elapsed: int, cap: int)
    requires
        0 <= base <= cap,
        0 <= elapsed,
    ensures
        base <= poll_nanos(base, elapsed, cap) <= cap,
        base == 0 ==> poll_nanos(base, elapsed, cap) == cap,
        0 < base && elapsed < base ==> poll_nanos(base, elapsed, cap) == base,
        0 < base && poll_nanos(base, elapsed, cap) < cap ==> elapsed < poll_nanos(
            base,
            elapsed,
            cap,
        ),
{
    if base > 0 {
        recheck_backoff_is_orderly(base, cap, 0, elapsed);
        a_check_is_polled_at_the_first_interval_it_has_not_outrun(base, elapsed, cap);
    }
}

/// Every share of a delay is picked by some jitter, none is no time at all, and
/// none is longer than the delay.
pub proof fn jitter_spreads_over_the_whole_delay(computed: int, jitter: u64, share: int)
    requires
        0 < computed,
        1 <= share <= computed,
        share - 1 <= u64::MAX,
    ensures
        1 <= jittered(computed, jitter) <= computed,
        jittered(computed, (share - 1) as u64) == share,
{
    vstd::arithmetic::div_mod::lemma_small_mod((share - 1) as nat, computed as nat);
}

} // verus!
