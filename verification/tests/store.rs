use seedmedic::clock::{Duration, TestClock, Timestamp};
use seedmedic::json::Json;
use seedmedic::library::MatchConfidence;
use seedmedic::repair::adapters::rows::{
    as_i64, as_u64, confidence_str, parse_confidence, parse_time, read_job, read_optional_time,
    read_planned_file, read_transition, timestamp, write_job, FileRow, TransitionRow,
};
use seedmedic::repair::adapters::sql::{
    actionable_states, bind_filter, claim_sql, count_sql, counts, escape_like, job_columns,
    job_filter_predicates, json_list, page_sql, split_search, staged_bytes_sql, staged_states,
    unfinished_by_tracker_sql, unfinished_sql, SCHEMA,
};
use seedmedic::repair::domain::{
    JobId, RepairJob, RepairState, ReviewReason, TransitionReason,
};
use seedmedic::repair::ports::{
    Applied, FileCompleteness, JobFilter, JobPatch, JobSort, PlannedFile, StoreError,
    TransitionUpdate,
};
use seedmedic::repair::store::{record_discovery, StoredJob};
use seedmedic::staging::MaterializationStrategy;
use seedmedic::torrent::{InfoHash, SafeRelativePath};
use seedmedic::tracker::{HitAndRun, TrackerId, TrackerTorrentId};

fn now() -> Timestamp {
    TestClock::default().now()
}

fn later(seconds: u64) -> Timestamp {
    now().plus(Duration::from_secs(seconds))
}

fn warning(torrent: &str) -> HitAndRun {
    HitAndRun {
        tracker: TrackerId::new("alpha"),
        torrent_id: TrackerTorrentId::new(torrent),
        torrent_name: "Show S01".to_owned(),
        info_hash: None,
        size_bytes: 1_000,
        deadline: Some(later(86_400)),
        observed_at: now(),
    }
}

fn stored() -> StoredJob {
    StoredJob::discovered(JobId(7), &warning("t1"), now())
}

fn planned(path: &str) -> PlannedFile {
    PlannedFile {
        torrent_path: SafeRelativePath::parse(path).expect("valid"),
        length: 10,
        source: None,
        confidence: None,
        evidence: None,
        materialized_as: None,
        recheck_progress: None,
    }
}

// --- SQL ---

#[test]
fn the_actionable_state_list_matches_the_lifecycle() {
    let from_enum = RepairState::progression()
        .iter()
        .filter(|state| state.is_actionable())
        .map(|state| format!("'{}'", state.as_str()))
        .collect::<Vec<_>>()
        .join(", ");

    let from_sql = actionable_states()
        .split(',')
        .map(str::trim)
        .collect::<Vec<_>>()
        .join(", ");

    assert_eq!(from_sql, from_enum);
}

#[test]
fn the_job_column_list_matches_the_schema() {
    for column in job_columns().split(',').map(str::trim) {
        assert!(
            SCHEMA.contains(column),
            "`{column}` is selected but not in the schema"
        );
    }
}

#[test]
fn the_staged_state_list_matches_the_lifecycle() {
    let listed: Vec<&str> = staged_states()
        .split(',')
        .map(|state| state.trim().trim_matches('\''))
        .collect();

    let staged_rank = RepairState::Staged.rank().expect("staged is on the path");
    for state in RepairState::progression() {
        let expected = state.rank().is_some_and(|rank| rank >= staged_rank);
        assert_eq!(
            listed.contains(&state.as_str()),
            expected,
            "`{}` is at rank {:?}",
            state.as_str(),
            state.rank()
        );
    }

    assert!(!listed.contains(&RepairState::Failed.as_str()));
    assert!(!listed.contains(&RepairState::Discovered.as_str()));
}

#[test]
fn the_filter_predicates_bind_in_the_order_bind_filter_uses() {
    let expected = [
        ("?1", "state"),
        ("?2", "review_reason"),
        ("?3", "tracker_id"),
        ("?4", "torrent_name"),
        ("?5", "info_hash"),
    ];

    let clauses: Vec<&str> = job_filter_predicates().split(" AND ").collect();
    assert_eq!(
        clauses.len(),
        expected.len(),
        "a clause was added or removed without updating bind_filter"
    );

    for (clause, (param, column)) in clauses.iter().zip(expected) {
        assert!(
            clause.contains(param) && clause.contains(column),
            "expected the clause binding {param} to filter on {column}, got: {clause}"
        );
    }
}

#[test]
fn a_search_term_containing_a_wildcard_is_escaped() {
    let (pattern, hash) = split_search(Some("100%_real\\thing"));
    assert_eq!(hash, None);
    assert_eq!(pattern.as_deref(), Some(r"%100\%\_real\\thing%"));
}

#[test]
fn a_forty_character_hex_term_is_an_info_hash_not_a_name_search() {
    let hex = "A".repeat(40);
    let (pattern, hash) = split_search(Some(&hex));
    assert_eq!(pattern, None);
    assert_eq!(hash.as_deref(), Some("a".repeat(40).as_str()));

    let (pattern, hash) = split_search(Some(&"A".repeat(39)));
    assert!(pattern.is_some());
    assert_eq!(hash, None);
    let (pattern, hash) = split_search(Some(&format!("{}z", "A".repeat(39))));
    assert!(pattern.is_some());
    assert_eq!(hash, None);
}

#[test]
fn a_blank_search_term_is_no_filter_at_all() {
    assert_eq!(split_search(None), (None, None));
    assert_eq!(split_search(Some("   ")), (None, None));
}

#[test]
fn an_empty_filter_list_binds_null_rather_than_an_empty_array() {
    assert_eq!(json_list(&vec![]), None);
    assert_eq!(
        json_list(&vec!["a".to_owned(), "b".to_owned()]).as_deref(),
        Some(r#"["a","b"]"#)
    );
}

#[test]
fn a_filter_binds_what_it_says() {
    let binds = bind_filter(&JobFilter {
        states: vec![RepairState::Discovered, RepairState::Seeding],
        trackers: vec![TrackerId::new("a\"b")],
        search: Some(" x ".to_owned()),
        ..JobFilter::default()
    });
    assert_eq!(binds.states.as_deref(), Some(r#"["discovered","seeding"]"#));
    assert_eq!(binds.review_reasons, None);
    assert_eq!(binds.trackers.as_deref(), Some(r#"["a\"b"]"#));
    assert_eq!(binds.name.as_deref(), Some("%x%"));
    assert_eq!(binds.hash, None);
}

#[test]
fn escaping_keeps_ordinary_text() {
    assert_eq!(escape_like("plain"), "plain");
    assert_eq!(escape_like(r"50%_\"), r"50\%\_\\");
}

#[test]
fn every_statement_is_about_jobs() {
    for sql in [
        page_sql(JobSort::UpdatedAt, true),
        page_sql(JobSort::CreatedAt, false),
        count_sql(),
        unfinished_sql(),
        unfinished_by_tracker_sql(),
        staged_bytes_sql(),
        claim_sql(),
    ] {
        assert!(sql.contains("repair_jobs"), "{sql}");
    }
    assert!(page_sql(JobSort::UpdatedAt, true).contains("DESC"));
    assert!(page_sql(JobSort::UpdatedAt, false).contains("ASC"));
}

#[test]
fn review_reasons_are_counted_biggest_group_first() {
    let counted = counts(
        vec![("awaiting_review".to_owned(), 3)],
        vec![
            (Some("ambiguous_match".to_owned()), 1),
            (Some("adapter_not_implemented".to_owned()), 2),
        ],
    );
    assert_eq!(
        counted.by_review_reason,
        vec![
            (Some(ReviewReason::AdapterNotImplemented), 2),
            (Some(ReviewReason::AmbiguousMatch), 1),
        ]
    );
}

#[test]
fn counts_are_ordered_and_unknown_states_left_out() {
    let counted = counts(
        vec![
            ("staged".to_owned(), 2),
            ("nonsense".to_owned(), 5),
            ("discovered".to_owned(), 1),
        ],
        vec![
            (Some("ambiguous_match".to_owned()), 1),
            (Some("adapter_not_implemented".to_owned()), 2),
        ],
    );
    assert_eq!(
        counted.by_state,
        vec![(RepairState::Discovered, 1), (RepairState::Staged, 2)]
    );
    assert_eq!(
        counted.by_review_reason,
        vec![
            (Some(ReviewReason::AdapterNotImplemented), 2),
            (Some(ReviewReason::AmbiguousMatch), 1),
        ]
    );
    assert_eq!(counted.total, 3);
}

// --- Rows ---

#[test]
fn a_moment_reads_back_as_it_was_written() {
    let moment = later(90);
    assert_eq!(timestamp(moment), "2026-01-01T00:01:30.000000Z");
    assert_eq!(parse_time(&timestamp(moment)), Some(moment));
    assert_eq!(
        parse_time("2026-01-01T02:00:00+02:00"),
        Some(now())
    );
    assert_eq!(parse_time("yesterday"), None);
}

#[test]
fn a_stored_job_reads_back() {
    let mut kept = stored();
    let park = kept
        .job
        .plan_transition(
            RepairState::AwaitingReview,
            TransitionReason::Review(ReviewReason::NoCandidates),
        )
        .expect("can park");
    kept.apply(park, TransitionUpdate::default(), later(5))
        .expect("parked");
    let back = read_job(&write_job(&kept.job)).expect("readable");
    assert_eq!(back, kept.job);
    assert_eq!(back.review_from_state, Some(RepairState::Discovered));
}

#[test]
fn a_corrupt_row_is_reported_not_guessed_at() {
    let mut row = write_job(&stored().job);
    row.state = "nonsense".to_owned();
    match read_job(&row) {
        Err(StoreError::Corrupt { id, reason }) => {
            assert_eq!(id, JobId(7));
            assert_eq!(reason, "unknown repair state `nonsense`");
        }
        other => panic!("unexpected {other:?}"),
    }

    let mut row = write_job(&stored().job);
    row.created_at = "yesterday".to_owned();
    assert!(matches!(read_job(&row), Err(StoreError::Corrupt { .. })));
    assert!(read_optional_time(JobId(7), "deadline", &Some("never".to_owned())).is_err());
    assert_eq!(read_optional_time(JobId(7), "deadline", &None), Ok(None));
}

#[test]
fn sizes_that_do_not_fit_are_clipped() {
    assert_eq!(as_i64(u64::MAX), i64::MAX);
    assert_eq!(as_i64(5), 5);
    assert_eq!(as_u64(-1), 0);
    assert_eq!(as_u64(5), 5);
}

#[test]
fn confidences_round_trip_through_their_names() {
    for confidence in [
        MatchConfidence::Ambiguous,
        MatchConfidence::Probable,
        MatchConfidence::Operator,
        MatchConfidence::Exact,
    ] {
        assert_eq!(
            parse_confidence(confidence_str(confidence)),
            Some(confidence)
        );
    }
    assert_eq!(parse_confidence("certain"), None);
}

#[test]
fn a_planned_file_with_an_unsafe_path_is_corrupt() {
    let row = FileRow {
        torrent_path: "../etc/passwd".to_owned(),
        length_bytes: 1,
        source_path: None,
        match_confidence: None,
        match_evidence: None,
        materialized_as: None,
        recheck_progress: None,
    };
    assert!(matches!(
        read_planned_file(JobId(1), &row),
        Err(StoreError::Corrupt { .. })
    ));
}

#[test]
fn a_transition_row_reads_back() {
    let record = read_transition(
        JobId(1),
        TransitionRow {
            from_state: "staged".to_owned(),
            to_state: "injected".to_owned(),
            reason: "progress".to_owned(),
            detail: Some(Json::Null),
            occurred_at: timestamp(now()),
        },
    )
    .expect("readable");
    assert_eq!(record.from, RepairState::Staged);
    assert_eq!(record.to, RepairState::Injected);
    assert_eq!(record.occurred_at, now());
}

// --- The stored job ---

fn advanced(job: &StoredJob) -> seedmedic::repair::domain::Transition {
    job.job.advance().expect("can advance")
}

#[test]
fn a_discovery_opens_one_job_and_rediscovery_changes_nothing() {
    let mut jobs: Vec<StoredJob> = Vec::new();
    let first = record_discovery(&mut jobs, JobId(1), &warning("t1"), now());
    assert!(first.created);
    let again = record_discovery(&mut jobs, JobId(2), &warning("t1"), later(60));
    assert!(!again.created);
    assert_eq!(again.id, JobId(1));
    assert_eq!(jobs.len(), 1);
    let other = record_discovery(&mut jobs, JobId(2), &warning("t2"), later(60));
    assert!(other.created);
    assert_eq!(jobs.len(), 2);
    assert_eq!(jobs[0].history[0].reason, "discovered");
}

#[test]
fn a_new_job_starts_with_its_discovery_and_nothing_else() {
    let mut jobs: Vec<StoredJob> = Vec::new();
    record_discovery(&mut jobs, JobId(1), &warning("t1"), later(5));
    let kept = &jobs[0];
    assert_eq!(kept.history.len(), 1);
    assert_eq!(kept.history[0].from, RepairState::Discovered);
    assert_eq!(kept.history[0].to, RepairState::Discovered);
    assert_eq!(kept.history[0].occurred_at, later(5));
    assert_eq!(
        kept.history[0].detail,
        Some(
            Json::fact("tracker", Json::text("alpha"))
                .with("torrent_id", Json::text("t1"))
                .with("size_bytes", Json::Unsigned(1_000))
                .with("deadline", Json::Moment(later(86_400)))
        )
    );
    assert!(kept.files.is_empty());
    assert!(kept.torrent_file.is_none());
    assert!(kept.lease_owner.is_none());
    assert!(kept.lease_expires_at.is_none());
}

#[test]
fn applying_moves_the_job_and_writes_the_audit_row() {
    let mut kept = stored();
    kept.job.attempts = 3;
    let step = advanced(&kept);
    let applied = kept
        .apply(
            step,
            TransitionUpdate::with_detail(Json::text("why")),
            later(10),
        )
        .expect("applies");
    assert_eq!(applied, Applied::Applied);
    assert_eq!(kept.job.state, RepairState::TorrentFetched);
    assert_eq!(kept.job.attempts, 0);
    assert_eq!(kept.history.len(), 2);
    assert_eq!(kept.history[1].detail, Some(Json::text("why")));
}

#[test]
fn a_replayed_step_is_no_error_and_writes_no_second_row() {
    let mut kept = stored();
    let step = advanced(&kept);
    kept.apply(step, TransitionUpdate::default(), later(10))
        .expect("applies");
    let again = kept
        .apply(step, TransitionUpdate::default(), later(20))
        .expect("a replay");
    assert_eq!(again, Applied::AlreadyInTargetState);
    assert_eq!(kept.history.len(), 2);
}

#[test]
fn a_job_that_moved_on_is_a_conflict() {
    let mut kept = stored();
    let step = advanced(&kept);
    kept.apply(step, TransitionUpdate::default(), later(10))
        .expect("applies");
    let next = advanced(&kept);
    kept.apply(next, TransitionUpdate::default(), later(20))
        .expect("applies");
    assert!(matches!(
        kept.apply(step, TransitionUpdate::default(), later(30)),
        Err(StoreError::Conflict { .. })
    ));
}

#[test]
fn a_patch_keeps_what_it_does_not_mention() {
    let mut kept = stored();
    let mut patch = JobPatch::default();
    patch.info_hash = Some(InfoHash::from_bytes([1; 20]));
    kept.record_progress(patch, later(10));
    assert_eq!(kept.job.info_hash, Some(InfoHash::from_bytes([1; 20])));
    assert_eq!(kept.job.total_bytes, Some(1_000));
    assert_eq!(kept.history.len(), 1, "telemetry leaves no audit row");
}

#[test]
fn progress_per_file_lands_on_the_file_it_is_about() {
    let mut kept = stored();
    kept.files = vec![planned("a/e01.mkv"), planned("a/e02.mkv")];
    let mut patch = JobPatch::default();
    patch.file_progress = Some(vec![FileCompleteness {
        torrent_path: SafeRelativePath::parse("a/e02.mkv").expect("valid"),
        ratio_bits: 0.5f64.to_bits(),
    }]);
    let step = advanced(&kept);
    kept.apply(step, TransitionUpdate::default().patch(patch), later(10))
        .expect("applies");
    assert_eq!(kept.files[0].recheck_progress, None);
    assert_eq!(kept.files[1].recheck_progress, Some(0.5f64.to_bits()));
}

#[test]
fn a_new_plan_starts_without_progress() {
    let mut kept = stored();
    let mut done = planned("a/e01.mkv");
    done.recheck_progress = Some(1.0f64.to_bits());
    let mut half = planned("a/e02.mkv");
    half.recheck_progress = Some(0.25f64.to_bits());
    let mut patch = JobPatch::default();
    patch.files = Some(vec![done, half]);
    patch.file_progress = Some(vec![FileCompleteness {
        torrent_path: SafeRelativePath::parse("a/e02.mkv").expect("valid"),
        ratio_bits: 0.5f64.to_bits(),
    }]);
    let step = advanced(&kept);
    kept.apply(step, TransitionUpdate::default().patch(patch), later(10))
        .expect("applies");
    assert_eq!(kept.files.len(), 2);
    assert_eq!(kept.files[0].recheck_progress, None);
    assert_eq!(kept.files[1].recheck_progress, Some(0.5f64.to_bits()));
}

#[test]
fn a_lease_keeps_others_out_until_it_expires() {
    let mut kept = stored();
    assert!(kept.claim("one", Duration::from_secs(300), now()));
    assert!(!kept.claim("two", Duration::from_secs(300), later(299)));
    assert!(kept.has_active_lease(later(299)));
    assert!(kept.renew_lease("one", Duration::from_secs(300), later(299)));
    assert!(!kept.renew_lease("two", Duration::from_secs(300), later(299)));
    // A lease that was lost to expiry is not reacquired by renewing it.
    assert!(!kept.renew_lease("one", Duration::from_secs(300), later(599)));
    assert!(kept.claim("two", Duration::from_secs(300), later(700)));
}

#[test]
fn a_release_schedules_the_next_attempt() {
    let mut kept = stored();
    assert!(kept.claim("one", Duration::from_secs(300), now()));
    kept.release(Some(later(60)), true, now());
    assert_eq!(kept.job.attempts, 1);
    assert!(!kept.claim("one", Duration::from_secs(300), later(59)));
    assert!(kept.claim("one", Duration::from_secs(300), later(60)));
    assert!(kept.clear_stale_lease("one", later(61)));
    assert!(!kept.clear_stale_lease("one", later(62)));
}

#[test]
fn the_start_of_a_check_is_forgotten_once_it_ends() {
    let mut kept = stored();
    kept.job.state = RepairState::Rechecking;
    kept.job.rechecking_started_at = Some(now());
    let verified = kept.job.advance().expect("a next step");
    kept.apply(verified, TransitionUpdate::default(), later(5))
        .expect("moved");
    assert_eq!(kept.job.state, RepairState::Verified);
    assert_eq!(kept.job.rechecking_started_at, None);
}

#[test]
fn a_parked_jobs_resume_point_can_be_corrected() {
    let mut kept = stored();
    kept.job.state = RepairState::Seeding;
    let park = kept
        .job
        .plan_transition(
            RepairState::AwaitingReview,
            TransitionReason::Review(ReviewReason::AutoResumeDisabled),
        )
        .expect("can park");
    kept.apply(park, TransitionUpdate::default(), later(5))
        .expect("parked");
    kept.set_review_resume_point(RepairState::Staged, later(6))
        .expect("corrected");
    assert_eq!(kept.job.state, RepairState::AwaitingReview);
    assert_eq!(kept.job.review_from_state, Some(RepairState::Staged));
    assert_eq!(kept.history.last().expect("a row").reason, "reconciliation");
}

#[test]
fn a_row_keeps_the_strategy_by_its_name() {
    let mut job: RepairJob = stored().job;
    job.materialization = Some(MaterializationStrategy::Hardlink);
    assert_eq!(write_job(&job).materialization.as_deref(), Some("hardlink"));
}
