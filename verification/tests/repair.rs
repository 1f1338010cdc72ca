use seedmedic::clock::{Duration, TestClock, Timestamp};
use seedmedic::library::{
    CandidateOrigin, FileMatch, MatchConfidence, MatchEvidence, MatchPlan, UnmatchedFile,
    UnmatchedReason,
};
use seedmedic::repair::domain::{
    validate_transition, InvalidTransition, JobId, RepairState, ReviewReason, Transition,
    TransitionReason,
};
use seedmedic::repair::policy::{
    decide_approved_resume, decide_match, decide_resume, queued_recheck_poll_delay,
    recheck_elapsed, recheck_poll_delay, retry_delay, retry_delay_with_jitter, AutoResume,
    MatchDecision, MaterializationPolicy, ResumeDecision, SafetyPolicy,
};
use seedmedic::seeding::DataCompleteness;
use seedmedic::staging::MaterializationStrategy;
use seedmedic::torrent::SafeRelativePath;

fn now() -> Timestamp {
    TestClock::default().now()
}

fn partial() -> DataCompleteness {
    DataCompleteness::Partial {
        ratio_bits: 0.99f64.to_bits(),
    }
}

// --- The lifecycle ---

fn validate(
    from: RepairState,
    to: RepairState,
    reason: TransitionReason,
) -> Result<Transition, InvalidTransition> {
    validate_transition(from, to, reason, None)
}

#[test]
fn every_state_round_trips_through_its_string_form() {
    for state in RepairState::progression()
        .into_iter()
        .chain([RepairState::AwaitingReview, RepairState::Failed])
    {
        assert_eq!(RepairState::parse(state.as_str()), Ok(state));
    }
    assert!(RepairState::parse("nonsense").is_err());
}

#[test]
fn progress_walks_the_lifecycle_one_step_at_a_time() {
    let mut state = RepairState::Discovered;
    while let Some(next) = state.next() {
        validate(state, next, TransitionReason::Progress)
            .unwrap_or_else(|error| panic!("{} -> {} must be legal: {}", state.as_str(), next.as_str(), error.message()));
        state = next;
    }
    assert_eq!(state, RepairState::Completed);
}

#[test]
fn progress_cannot_skip_a_step() {
    assert!(
        validate(
            RepairState::Matched,
            RepairState::Injected,
            TransitionReason::Progress
        )
        .is_err()
    );
}

#[test]
fn progress_cannot_go_backwards() {
    assert!(
        validate(
            RepairState::Staged,
            RepairState::Matched,
            TransitionReason::Progress
        )
        .is_err()
    );
}

#[test]
fn terminal_states_do_not_advance() {
    assert_eq!(RepairState::Completed.next(), None);
    assert!(RepairState::Completed.is_terminal());
    assert!(RepairState::Failed.is_terminal());
    assert!(!RepairState::AwaitingReview.is_terminal());
    assert!(!RepairState::AwaitingReview.is_actionable());
}

#[test]
fn any_actionable_state_can_be_parked_for_review() {
    for state in RepairState::progression() {
        let expected = state.is_actionable();
        let allowed = validate(
            state,
            RepairState::AwaitingReview,
            TransitionReason::Review(ReviewReason::NoCandidates),
        )
        .is_ok();
        assert_eq!(allowed, expected, "review from {}", state.as_str());
    }
}

#[test]
fn review_must_target_awaiting_review() {
    assert!(
        validate(
            RepairState::Matched,
            RepairState::Failed,
            TransitionReason::Review(ReviewReason::NoCandidates)
        )
        .is_err()
    );
}

#[test]
fn a_retry_may_only_resume_the_step_the_job_stopped_at() {
    let resume = validate_transition(
        RepairState::AwaitingReview,
        RepairState::Matched,
        TransitionReason::OperatorRetry,
        Some(RepairState::Matched),
    );
    assert!(resume.is_ok());

    // Not the recorded step: this would let review skip work.
    assert!(
        validate_transition(
            RepairState::AwaitingReview,
            RepairState::Seeding,
            TransitionReason::OperatorRetry,
            Some(RepairState::Matched),
        )
        .is_err()
    );

    // No recorded step at all: refuse rather than guess.
    assert!(
        validate_transition(
            RepairState::AwaitingReview,
            RepairState::Matched,
            TransitionReason::OperatorRetry,
            None,
        )
        .is_err()
    );
}

#[test]
fn only_parked_jobs_can_be_abandoned() {
    assert!(
        validate(
            RepairState::AwaitingReview,
            RepairState::Failed,
            TransitionReason::OperatorAbandon
        )
        .is_ok()
    );
    assert!(
        validate(
            RepairState::Staged,
            RepairState::Failed,
            TransitionReason::OperatorAbandon
        )
        .is_err()
    );
}

#[test]
fn parked_and_failed_jobs_can_be_restarted_but_completed_ones_cannot() {
    for from in [RepairState::AwaitingReview, RepairState::Failed] {
        assert!(
            validate(
                from,
                RepairState::Discovered,
                TransitionReason::OperatorRestart
            )
            .is_ok()
        );
    }
    assert!(
        validate(
            RepairState::Completed,
            RepairState::Discovered,
            TransitionReason::OperatorRestart
        )
        .is_err()
    );
}

#[test]
fn a_completed_repair_cannot_be_failed() {
    assert!(
        validate(
            RepairState::Completed,
            RepairState::Failed,
            TransitionReason::Failure
        )
        .is_err()
    );
    assert!(
        validate(
            RepairState::Seeding,
            RepairState::Failed,
            TransitionReason::Failure
        )
        .is_ok()
    );
}

#[test]
fn reconciliation_only_moves_backwards_along_the_lifecycle() {
    assert!(
        validate(
            RepairState::Injected,
            RepairState::Staged,
            TransitionReason::Reconciliation
        )
        .is_ok()
    );
    assert!(
        validate(
            RepairState::Staged,
            RepairState::Injected,
            TransitionReason::Reconciliation
        )
        .is_err()
    );
    assert!(
        validate(
            RepairState::AwaitingReview,
            RepairState::Staged,
            TransitionReason::Reconciliation
        )
        .is_err()
    );
}

#[test]
fn every_reason_round_trips_through_its_string_form() {
    for reason in [
        ReviewReason::AmbiguousMatch,
        ReviewReason::NoCandidates,
        ReviewReason::ConfidenceBelowPolicy,
        ReviewReason::MaterializationUnavailable,
        ReviewReason::InsufficientStagingSpace,
        ReviewReason::IncompleteData,
        ReviewReason::AliasedIncompleteData,
        ReviewReason::RecheckTimedOut,
        ReviewReason::RecheckErrored,
        ReviewReason::AutoResumeDisabled,
        ReviewReason::RetryBudgetExhausted,
        ReviewReason::AdapterNotImplemented,
        ReviewReason::TrackerStatusUnclear,
        ReviewReason::UnsafeTorrentPaths,
        ReviewReason::TorrentUnreadable,
        ReviewReason::InfoHashMismatch,
        ReviewReason::LibraryChanged,
        ReviewReason::DownloadingDuringSeeding,
    ] {
        assert_eq!(ReviewReason::parse(reason.as_str()), Some(reason));
        assert!(!reason.description().is_empty());
    }
    assert_eq!(ReviewReason::parse("nonsense"), None);
}

#[test]
fn a_refused_transition_says_why() {
    let error = validate(
        RepairState::Staged,
        RepairState::Matched,
        TransitionReason::Progress,
    )
    .expect_err("backwards");
    assert_eq!(
        error.message(),
        "cannot move a repair from staged to matched (progress): progress may only advance one step along the lifecycle"
    );
}

#[test]
fn a_completed_repair_can_only_be_reconciled() {
    assert!(validate(
        RepairState::Completed,
        RepairState::Seeding,
        TransitionReason::Reconciliation
    )
    .is_ok());
    assert!(validate(
        RepairState::Completed,
        RepairState::AwaitingReview,
        TransitionReason::Review(ReviewReason::NoCandidates)
    )
    .is_err());
}

#[test]
fn a_job_is_named_by_its_number() {
    assert_eq!(JobId(-7).to_text(), "-7");
    assert_eq!(JobId(42).to_text(), "42");
}

// --- The policy ---

fn permissive() -> SafetyPolicy {
    SafetyPolicy {
        auto_resume: AutoResume::WhenVerifiedComplete,
        ..SafetyPolicy::default()
    }
}

#[test]
fn incomplete_hardlinked_data_is_never_resumed_however_permissive_the_policy() {
    let policy = SafetyPolicy {
        auto_resume: AutoResume::WhenVerifiedComplete,
        min_match_confidence: MatchConfidence::Ambiguous,
        materialization: MaterializationPolicy {
            prefer_reflink: false,
            allow_hardlink: true,
            allow_copy: true,
        },
        max_attempts: u32::MAX,
        ..SafetyPolicy::default()
    };

    assert_eq!(
        decide_resume(partial(), Some(MaterializationStrategy::Hardlink), &policy),
        ResumeDecision::HoldForReview(ReviewReason::AliasedIncompleteData)
    );
}

#[test]
fn unknown_materialization_is_treated_as_the_dangerous_case() {
    assert_eq!(
        decide_resume(partial(), None, &permissive()),
        ResumeDecision::HoldForReview(ReviewReason::AliasedIncompleteData)
    );
}

#[test]
fn incomplete_but_independent_data_is_still_not_resumed_automatically() {
    for strategy in [
        MaterializationStrategy::Reflink,
        MaterializationStrategy::Copy,
    ] {
        assert_eq!(
            decide_resume(partial(), Some(strategy), &permissive()),
            ResumeDecision::HoldForReview(ReviewReason::IncompleteData),
            "{strategy:?}"
        );
    }
}

#[test]
fn complete_data_resumes_only_when_policy_allows_it() {
    assert_eq!(
        decide_resume(
            DataCompleteness::Complete,
            Some(MaterializationStrategy::Reflink),
            &permissive()
        ),
        ResumeDecision::Resume
    );
    assert_eq!(
        decide_resume(
            DataCompleteness::Complete,
            Some(MaterializationStrategy::Reflink),
            &SafetyPolicy::default()
        ),
        ResumeDecision::HoldForReview(ReviewReason::AutoResumeDisabled)
    );
}

#[test]
fn complete_hardlinked_data_may_resume_because_seeding_only_reads() {
    assert_eq!(
        decide_resume(
            DataCompleteness::Complete,
            Some(MaterializationStrategy::Hardlink),
            &permissive()
        ),
        ResumeDecision::Resume
    );
}

#[test]
fn the_default_policy_never_resumes_by_itself() {
    assert_eq!(SafetyPolicy::default().auto_resume, AutoResume::Never);
}

#[test]
fn the_default_materialization_policy_prefers_reflinks_and_refuses_hardlinks() {
    let policy = MaterializationPolicy::default();
    assert_eq!(
        policy.preference(),
        vec![
            MaterializationStrategy::Reflink,
            MaterializationStrategy::Copy
        ]
    );
}

#[test]
fn hardlinks_are_always_the_last_strategy_tried() {
    let policy = MaterializationPolicy {
        prefer_reflink: true,
        allow_hardlink: true,
        allow_copy: true,
    };
    assert_eq!(
        policy.preference().last(),
        Some(&MaterializationStrategy::Hardlink)
    );
}

fn matched(confidence: MatchConfidence) -> FileMatch {
    FileMatch {
        torrent_path: SafeRelativePath::parse("job/e01.mkv").expect("valid"),
        length: 10,
        source: "/media/e01.mkv".to_owned(),
        origin: CandidateOrigin::Filesystem {
            root: "/media".to_owned(),
        },
        confidence,
        evidence: MatchEvidence::default(),
    }
}

#[test]
fn a_plan_below_the_confidence_floor_is_parked() {
    let plan = MatchPlan {
        matched: vec![
            matched(MatchConfidence::Probable),
            matched(MatchConfidence::Ambiguous),
        ],
        unmatched: Vec::new(),
    };

    assert_eq!(
        decide_match(&plan, &SafetyPolicy::default()),
        MatchDecision::HoldForReview(ReviewReason::ConfidenceBelowPolicy)
    );
}

#[test]
fn a_plan_meeting_the_floor_is_accepted() {
    let plan = MatchPlan {
        matched: vec![matched(MatchConfidence::Probable)],
        unmatched: Vec::new(),
    };

    assert_eq!(
        decide_match(&plan, &SafetyPolicy::default()),
        MatchDecision::Accept
    );
}

#[test]
fn one_unmatched_file_parks_the_whole_repair() {
    let plan = MatchPlan {
        matched: vec![matched(MatchConfidence::Exact)],
        unmatched: vec![UnmatchedFile {
            torrent_path: SafeRelativePath::parse("job/e02.mkv").expect("valid"),
            length: 20,
            reason: UnmatchedReason::Ambiguous { candidates: 3 },
        }],
    };

    assert_eq!(
        decide_match(&plan, &SafetyPolicy::default()),
        MatchDecision::HoldForReview(ReviewReason::AmbiguousMatch)
    );
}

#[test]
fn an_empty_plan_is_not_a_successful_match() {
    assert_eq!(
        decide_match(&MatchPlan::default(), &SafetyPolicy::default()),
        MatchDecision::HoldForReview(ReviewReason::NoCandidates)
    );
}

#[test]
fn a_queued_check_is_polled_less_often_than_a_running_one() {
    let policy = SafetyPolicy {
        recheck_poll_interval: Duration::from_secs(15),
        ..SafetyPolicy::default()
    };
    assert!(queued_recheck_poll_delay(&policy) > policy.recheck_poll_interval);
}

#[test]
fn a_check_that_just_started_is_polled_at_the_base_interval() {
    let policy = SafetyPolicy {
        recheck_poll_interval: Duration::from_secs(15),
        recheck_poll_max_interval: Duration::from_secs(300),
        ..SafetyPolicy::default()
    };
    assert_eq!(
        recheck_poll_delay(Duration::zero(), &policy),
        policy.recheck_poll_interval
    );
}

#[test]
fn recheck_poll_delay_backs_off_as_the_check_keeps_running_then_caps() {
    let policy = SafetyPolicy {
        recheck_poll_interval: Duration::from_secs(10),
        recheck_poll_max_interval: Duration::from_secs(60),
        ..SafetyPolicy::default()
    };

    let mut delay = recheck_poll_delay(Duration::zero(), &policy);
    let mut elapsed = Duration::zero();
    let mut previous = delay;
    for _ in 0..10 {
        elapsed = elapsed.saturating_add(delay);
        delay = recheck_poll_delay(elapsed, &policy);
        assert!(delay >= previous, "backoff must never shrink");
        assert!(
            delay <= policy.recheck_poll_max_interval,
            "backoff must respect the cap"
        );
        previous = delay;
    }
    assert_eq!(
        delay, policy.recheck_poll_max_interval,
        "a check running far longer than the cap must have reached it"
    );
}

#[test]
fn recheck_poll_delay_never_goes_below_the_base_interval() {
    let policy = SafetyPolicy {
        recheck_poll_interval: Duration::from_secs(15),
        recheck_poll_max_interval: Duration::from_secs(15),
        ..SafetyPolicy::default()
    };
    assert_eq!(
        recheck_poll_delay(Duration::from_secs(600), &policy),
        Duration::from_secs(15)
    );
}

#[test]
fn recheck_elapsed_is_zero_for_a_check_with_no_recorded_start() {
    assert_eq!(recheck_elapsed(None, now()), Duration::zero());
}

#[test]
fn recheck_elapsed_measures_from_the_recorded_start() {
    let start = now();
    let now = start.plus(Duration::from_secs(90));
    assert_eq!(recheck_elapsed(Some(start), now), Duration::from_secs(90));
}

#[test]
fn backoff_grows_and_then_stops_growing() {
    let policy = SafetyPolicy {
        retry_base_delay: Duration::from_secs(10),
        retry_max_delay: Duration::from_secs(100),
        ..SafetyPolicy::default()
    };

    assert_eq!(retry_delay(1, &policy), Duration::from_secs(10));
    assert_eq!(retry_delay(2, &policy), Duration::from_secs(20));
    assert_eq!(retry_delay(3, &policy), Duration::from_secs(40));
    assert_eq!(retry_delay(99, &policy), Duration::from_secs(100));
}

#[test]
fn jittered_delay_is_deterministic_for_a_fixed_source() {
    let policy = SafetyPolicy::default();
    assert_eq!(
        retry_delay_with_jitter(3, &policy, 42),
        retry_delay_with_jitter(3, &policy, 42)
    );
}

#[test]
fn jittered_delay_is_never_zero_across_many_seeds() {
    let policy = SafetyPolicy::default();
    for seed in 0..1000u64 {
        assert!(retry_delay_with_jitter(4, &policy, seed) > Duration::zero());
    }
}

#[test]
fn jittered_delay_never_exceeds_the_unjittered_backoff() {
    let policy = SafetyPolicy::default();
    for seed in [0, 1, u64::MAX, u64::MAX / 2, 123_456_789] {
        assert!(retry_delay_with_jitter(2, &policy, seed) <= retry_delay(2, &policy));
    }
}

#[test]
fn jittered_delay_spreads_out_across_different_sources() {
    let policy = SafetyPolicy {
        retry_base_delay: Duration::from_secs(30),
        ..SafetyPolicy::default()
    };
    let delays: std::collections::BTreeSet<_> = (0..10u64)
        .map(|seed| retry_delay_with_jitter(1, &policy, seed * 987_654_321))
        .collect();
    assert!(
        delays.len() > 1,
        "different jitter sources should usually produce different delays"
    );
}

#[test]
fn approval_stands_in_for_the_policy_but_not_for_complete_data() {
    let policy = SafetyPolicy::default();
    assert_eq!(
        decide_approved_resume(
            DataCompleteness::Complete,
            Some(MaterializationStrategy::Hardlink),
            &policy,
            true
        ),
        ResumeDecision::Resume
    );
    assert_eq!(
        decide_approved_resume(
            partial(),
            Some(MaterializationStrategy::Hardlink),
            &policy,
            true
        ),
        ResumeDecision::HoldForReview(ReviewReason::AliasedIncompleteData)
    );
}

#[test]
fn a_zero_base_interval_polls_at_the_cap() {
    let policy = SafetyPolicy {
        recheck_poll_interval: Duration::zero(),
        ..SafetyPolicy::default()
    };
    assert_eq!(
        recheck_poll_delay(Duration::from_secs(5), &policy),
        Duration::from_secs(300)
    );
}

#[test]
fn a_zero_delay_is_still_jittered_to_more_than_nothing() {
    let policy = SafetyPolicy {
        retry_base_delay: Duration::zero(),
        ..SafetyPolicy::default()
    };
    assert_eq!(
        retry_delay_with_jitter(1, &policy, 7),
        Duration::from_nanos(1)
    );
}
