use seedmedic::clock::{Duration, TestClock, Timestamp};
use seedmedic::diagnostics::{Diagnostics, TrackerHealth};
use seedmedic::events::{ActivityKind, EventKind};
use seedmedic::json::Json;
use seedmedic::library::{Candidate, CandidateError, CandidateOrigin};
use seedmedic::not_implemented::NotImplemented;
use seedmedic::notify::NotificationEvent;
use seedmedic::repair::application::acquire::{accept_torrent, fetch_torrent, total_fits};
use seedmedic::repair::application::confirm::{
    after_resume, check_client, confirm_with_tracker, read_tracker, ClientCheck,
};
use seedmedic::repair::application::discover::{
    notify_if_unreachable_too_long, tracker_polled, DiscoveryRun, DiscoverySummary,
};
use seedmedic::repair::application::inject::{
    inject, injection_request, ready_to_recheck, recheck_target, start_recheck,
};
use seedmedic::repair::application::match_media::{match_media, match_query, SourceAnswer};
use seedmedic::repair::application::stage::{stage_files, staging_request};
use seedmedic::repair::application::verify::{may_resume, resume, verify};
use seedmedic::repair::application::{step, Step, StepOutcome};
use seedmedic::repair::domain::{
    JobId, RepairJob, RepairState, ReviewReason, TransitionReason,
};
use seedmedic::repair::policy::{AutoResume, SafetyPolicy};
use seedmedic::repair::ports::{
    Applied, Discovered, JobPatch, PlannedFile, StoreError, TransitionUpdate,
};
use seedmedic::repair::reconcile::{
    corrected_resume_point, reconcile_job, staging_plan, torrent_to_ask_about, ReconcileSummary,
};
use seedmedic::repair::store::StoredJob;
use seedmedic::repair::worker::{
    news_of, told_of, Action, Drive, Event, Stop, TickSummary, WorkerConfig, MAX_STEPS,
};
use seedmedic::seeding::{
    ClientError, ClientTorrentState, DataCompleteness, FileProgress, TorrentStatus,
};
use seedmedic::staging::{
    MaterializationStrategy, StagedFile, StagedLayout, StagingError, StagingPresence,
};
use seedmedic::torrent::{InfoHash, InspectError, PathRejection, SafeRelativePath};
use seedmedic::tracker::{
    HitAndRun, HitAndRunStatus, TrackerError, TrackerId, TrackerTorrentId,
};

fn now() -> Timestamp {
    TestClock::default().now()
}

fn later(seconds: u64) -> Timestamp {
    now().plus(Duration::from_secs(seconds))
}

fn path(text: &str) -> SafeRelativePath {
    SafeRelativePath::parse(text).expect("valid")
}

fn hash() -> InfoHash {
    InfoHash::from_bytes([0xab; 20])
}

fn job(state: RepairState) -> RepairJob {
    let mut job = StoredJob::discovered(
        JobId(7),
        &HitAndRun {
            tracker: TrackerId::new("alpha"),
            torrent_id: TrackerTorrentId::new("t1"),
            torrent_name: "Show S01".to_owned(),
            info_hash: Some(hash()),
            size_bytes: 10,
            deadline: None,
            observed_at: now(),
        },
        now(),
    )
    .job;
    job.state = state;
    job
}

fn staged_job(state: RepairState) -> RepairJob {
    let mut job = job(state);
    job.staging_dir = Some(path("job-7"));
    job.materialization = Some(MaterializationStrategy::Reflink);
    job
}

fn stub() -> NotImplemented {
    NotImplemented::new("adapter", "todo")
}

fn stub_detail() -> Option<Json> {
    Some(Json::fact("adapter", Json::text("adapter")).with("todo", Json::text("todo")))
}

fn error_detail(message: &str) -> Option<Json> {
    Some(Json::fact("error", Json::text(message)))
}

fn parks(outcome: &StepOutcome) -> ReviewReason {
    match outcome {
        StepOutcome::Review { reason, .. } => *reason,
        other => panic!("not parked: {other:?}"),
    }
}

fn planned(text: &str) -> PlannedFile {
    PlannedFile {
        torrent_path: path(text),
        length: 10,
        source: None,
        confidence: None,
        evidence: None,
        materialized_as: None,
        recheck_progress: None,
    }
}

fn status(state: ClientTorrentState, completeness: DataCompleteness) -> TorrentStatus {
    TorrentStatus {
        state,
        completeness,
        save_path: "/srv/job-7".to_owned(),
        files: None,
        queued: false,
        message: None,
        uploaded_bytes: 5,
        seeding_seconds: Some(6),
    }
}

fn half() -> DataCompleteness {
    DataCompleteness::Partial {
        ratio_bits: 0.5f64.to_bits(),
    }
}

fn willing() -> SafetyPolicy {
    SafetyPolicy {
        auto_resume: AutoResume::WhenVerifiedComplete,
        ..SafetyPolicy::default()
    }
}

// --- Dispatch ---

#[test]
fn every_actionable_state_has_its_step() {
    assert_eq!(step(RepairState::Discovered), Ok(Step::FetchTorrent));
    assert_eq!(step(RepairState::Seeding), Ok(Step::ConfirmWithTracker));
    match step(RepairState::Failed) {
        Err(StepOutcome::Wait { after, note, .. }) => {
            assert_eq!(after, Duration::from_secs(3600));
            assert_eq!(note, "failed is not a state the worker acts on");
        }
        other => panic!("unexpected {other:?}"),
    }
}

// --- Fetching ---

const TORRENT: &[u8] = b"d4:infod6:lengthi10e4:name5:a.mkv12:piece lengthi16384eee";

#[test]
fn a_fetched_torrent_is_planned() {
    let mut wanting = job(RepairState::Discovered);
    wanting.info_hash = None;
    assert!(total_fits(TORRENT));
    match fetch_torrent(&wanting, Some(Ok(TORRENT.to_vec()))) {
        StepOutcome::Advance { detail, patch } => {
            assert!(detail.is_some());
            assert_eq!(patch.total_bytes, Some(10));
            assert_eq!(patch.torrent_file.as_deref(), Some(TORRENT));
            assert_eq!(patch.files, Some(vec![planned("a.mkv")]));
            assert!(patch.info_hash.is_some());
        }
        other => panic!("unexpected {other:?}"),
    }
}

#[test]
fn another_info_hash_than_the_trackers_is_not_guessed_about() {
    let outcome = fetch_torrent(&job(RepairState::Discovered), Some(Ok(TORRENT.to_vec())));
    assert_eq!(parks(&outcome), ReviewReason::InfoHashMismatch);
}

#[test]
fn what_a_tracker_cannot_deliver_is_parked_or_tried_again() {
    let waiting = job(RepairState::Discovered);
    match fetch_torrent(&waiting, None) {
        StepOutcome::Review { reason, detail, .. } => {
            assert_eq!(reason, ReviewReason::TrackerStatusUnclear);
            assert_eq!(detail, error_detail("tracker `alpha` is not configured"));
        }
        other => panic!("unexpected {other:?}"),
    }
    match fetch_torrent(&waiting, Some(Err(TrackerError::NotImplemented(stub())))) {
        StepOutcome::Review { reason, detail, .. } => {
            assert_eq!(reason, ReviewReason::AdapterNotImplemented);
            assert_eq!(detail, stub_detail());
        }
        other => panic!("unexpected {other:?}"),
    }
    assert_eq!(
        fetch_torrent(
            &waiting,
            Some(Err(TrackerError::Transport("down".to_owned())))
        ),
        StepOutcome::Retry {
            error: "tracker request failed: down".to_owned()
        }
    );
}

#[test]
fn an_unsafe_or_unreadable_torrent_is_parked() {
    let waiting = job(RepairState::Discovered);
    let unsafe_path = accept_torrent(
        &waiting,
        Vec::new(),
        Err(InspectError::UnsafePath(PathRejection::ParentTraversal)),
    );
    assert_eq!(parks(&unsafe_path), ReviewReason::UnsafeTorrentPaths);
    let unreadable = fetch_torrent(&waiting, Some(Ok(b"nonsense".to_vec())));
    assert_eq!(parks(&unreadable), ReviewReason::TorrentUnreadable);
}

// --- Matching ---

fn answer(label: &str, found: Result<Vec<Candidate>, CandidateError>) -> SourceAnswer {
    SourceAnswer {
        label: label.to_owned(),
        answer: found,
    }
}

fn media() -> Candidate {
    Candidate {
        path: "/media/e01.mkv".to_owned(),
        size_bytes: 10,
        origin: CandidateOrigin::Filesystem {
            root: "/media".to_owned(),
        },
    }
}

fn matching(answers: Vec<SourceAnswer>) -> StepOutcome {
    let fetched = job(RepairState::TorrentFetched);
    let query = match_query(&fetched, &Ok(vec![planned("Show S01/e01.mkv")])).expect("a query");
    match_media(&fetched, &query, answers, &SafetyPolicy::default())
}

#[test]
fn a_whole_match_is_planned_for_staging() {
    match matching(vec![answer("fs", Ok(vec![media()]))]) {
        StepOutcome::Advance { patch, .. } => {
            assert_eq!(patch.staging_dir, Some(path("job-7")));
            let files = patch.files.expect("planned");
            assert_eq!(files[0].source.as_deref(), Some("/media/e01.mkv"));
        }
        other => panic!("unexpected {other:?}"),
    }
}

#[test]
fn a_file_without_a_match_parks_the_repair_and_says_which() {
    match matching(vec![answer("fs", Ok(Vec::new()))]) {
        StepOutcome::Review { reason, detail, .. } => {
            assert_eq!(reason, ReviewReason::NoCandidates);
            let unmatched = Json::fact("path", Json::text("Show S01/e01.mkv"))
                .with("reason", Json::text("no_candidate"));
            assert_eq!(
                detail,
                Some(
                    Json::fact("candidates", Json::Unsigned(0))
                        .with("matched", Json::Unsigned(0))
                        .with("unmatched", Json::List(vec![unmatched]))
                        .with("sources_failed", Json::List(Vec::new()))
                )
            );
        }
        other => panic!("unexpected {other:?}"),
    }
}

#[test]
fn a_source_that_fails_is_not_an_empty_answer() {
    assert_eq!(
        matching(vec![
            answer("a", Err(CandidateError::Transport("down".to_owned()))),
            answer("b", Err(CandidateError::NotImplemented(stub()))),
            answer("c", Ok(Vec::new())),
        ]),
        StepOutcome::Retry {
            error: "every candidate source failed: [Object {\"error\": String(\"candidate lookup failed: down\"), \"source\": String(\"a\")}, Object {\"source\": String(\"b\"), \"todo\": String(\"todo\")}]".to_owned()
        }
    );
    // One that answers makes up for one that does not.
    assert!(matches!(
        matching(vec![
            answer("a", Err(CandidateError::Transport("down".to_owned()))),
            answer("b", Ok(vec![media()])),
        ]),
        StepOutcome::Advance { .. }
    ));
}

#[test]
fn only_stubs_for_sources_is_parked() {
    let outcome = matching(vec![answer(
        "a",
        Err(CandidateError::NotImplemented(stub())),
    )]);
    assert_eq!(parks(&outcome), ReviewReason::AdapterNotImplemented);
}

#[test]
fn a_torrent_without_files_is_unreadable() {
    let fetched = job(RepairState::TorrentFetched);
    let outcome = match_query(&fetched, &Ok(Vec::new())).expect_err("nothing to ask");
    assert_eq!(parks(&outcome), ReviewReason::TorrentUnreadable);
    assert_eq!(
        match_query(&fetched, &Err(StoreError::Database("locked".to_owned()))),
        Err(StepOutcome::Retry {
            error: "database error: locked".to_owned()
        })
    );
}

// --- Staging ---

fn sourced(text: &str) -> PlannedFile {
    let mut file = planned(text);
    file.source = Some("/media/e01.mkv".to_owned());
    file
}

#[test]
fn a_staged_layout_is_recorded_file_by_file() {
    let matched = staged_job(RepairState::Matched);
    let files = vec![sourced("Show S01/e01.mkv")];
    let request = staging_request(&matched, &Ok(vec![sourced("Show S01/e01.mkv")]), &willing())
        .expect("a request");
    assert_eq!(
        request.plan.items[0].destination.as_str(),
        "job-7/Show S01/e01.mkv"
    );
    let layout = StagedLayout {
        files: vec![StagedFile {
            path: path("job-7/Show S01/e01.mkv"),
            strategy: MaterializationStrategy::Copy,
            bytes: 10,
        }],
        reflink: None,
    };
    match stage_files(&files, request, Ok(layout)) {
        StepOutcome::Advance { detail, patch } => {
            assert_eq!(
                detail,
                Some(
                    Json::fact("staging_dir", Json::text("job-7"))
                        .with("strategy", Json::text("copy"))
                        .with("aliases_library", Json::Bool(false))
                        .with("bytes", Json::Unsigned(10))
                )
            );
            assert_eq!(patch.materialization, Some(MaterializationStrategy::Copy));
            assert_eq!(
                patch.files.expect("recorded")[0].materialized_as,
                Some(MaterializationStrategy::Copy)
            );
        }
        other => panic!("unexpected {other:?}"),
    }
}

fn staging_failure(error: StagingError) -> StepOutcome {
    let matched = staged_job(RepairState::Matched);
    let files = vec![sourced("e01.mkv")];
    let request =
        staging_request(&matched, &Ok(vec![sourced("e01.mkv")]), &willing()).expect("a request");
    stage_files(&files, request, Err(error))
}

#[test]
fn every_way_staging_can_fail_has_its_answer() {
    for (error, reason) in [
        (
            StagingError::NotImplemented(stub()),
            ReviewReason::AdapterNotImplemented,
        ),
        (
            StagingError::NoStrategyPermitted,
            ReviewReason::MaterializationUnavailable,
        ),
        (
            StagingError::SourceMissing("/media/e01.mkv".to_owned()),
            ReviewReason::LibraryChanged,
        ),
        (
            StagingError::UnsafePath {
                path: "/srv".to_owned(),
                reason: "a symlink",
            },
            ReviewReason::UnsafeTorrentPaths,
        ),
        (
            StagingError::InsufficientSpace {
                needed: 2,
                available: 1,
                margin: 0,
            },
            ReviewReason::InsufficientStagingSpace,
        ),
    ] {
        assert_eq!(parks(&staging_failure(error)), reason);
    }
    assert_eq!(
        staging_failure(StagingError::Io("odd".to_owned())),
        StepOutcome::Retry {
            error: "staging I/O failed: odd".to_owned()
        }
    );
    match staging_failure(StagingError::NoStrategyPermitted) {
        StepOutcome::Review { detail, .. } => assert_eq!(
            detail,
            Some(
                Json::fact(
                    "error",
                    Json::text("no permitted materialization strategy works for this repair")
                )
                .with("tried", Json::text("[Reflink, Copy]"))
            )
        ),
        other => panic!("unexpected {other:?}"),
    }
}

#[test]
fn staging_needs_sources_and_a_strategy() {
    let matched = staged_job(RepairState::Matched);
    let unsourced = staging_request(&matched, &Ok(vec![planned("e01.mkv")]), &willing())
        .expect_err("no source");
    assert_eq!(parks(&unsourced), ReviewReason::AmbiguousMatch);
    let mut nothing = willing();
    nothing.materialization.prefer_reflink = false;
    nothing.materialization.allow_copy = false;
    let forbidden = staging_request(&matched, &Ok(vec![sourced("e01.mkv")]), &nothing)
        .expect_err("no strategy");
    assert_eq!(parks(&forbidden), ReviewReason::MaterializationUnavailable);
}

// --- Injecting ---

#[test]
fn a_torrent_is_added_at_its_save_path() {
    let ready = staged_job(RepairState::Staged);
    let request = injection_request(&ready, Ok(Some(vec![1, 2])), "/srv", &Some("tv".to_owned()))
        .expect("a request");
    assert_eq!(request.save_path, "/srv/job-7");
    assert_eq!(request.info_hash, hash());
    assert_eq!(request.torrent_file, vec![1, 2]);
    match inject(&request, Ok(())) {
        StepOutcome::Advance { detail, .. } => assert_eq!(
            detail,
            Some(
                Json::fact("save_path", Json::text("/srv/job-7"))
                    .with("info_hash", Json::text(&"ab".repeat(20)))
            )
        ),
        other => panic!("unexpected {other:?}"),
    }
    assert_eq!(
        inject(&request, Err(ClientError::Unauthorized)),
        StepOutcome::Retry {
            error: "download client rejected our credentials".to_owned()
        }
    );
}

#[test]
fn nothing_is_added_without_a_torrent() {
    let missing = injection_request(&job(RepairState::Staged), Ok(None), "/srv", &None)
        .expect_err("no staging directory");
    assert_eq!(parks(&missing), ReviewReason::TorrentUnreadable);
    let gone = injection_request(&staged_job(RepairState::Staged), Ok(None), "/srv", &None)
        .expect_err("no torrent");
    match gone {
        StepOutcome::Review { detail, .. } => {
            assert_eq!(detail, error_detail("the stored .torrent is missing"))
        }
        other => panic!("unexpected {other:?}"),
    }
}

#[test]
fn a_recheck_starts_the_clock() {
    assert_eq!(recheck_target(&job(RepairState::Injected)), Ok(hash()));
    assert!(matches!(
        ready_to_recheck(&Ok(None)),
        Err(StepOutcome::Rewind {
            to: RepairState::Staged,
            ..
        })
    ));
    assert_eq!(
        ready_to_recheck(&Ok(Some(status(
            ClientTorrentState::Paused,
            DataCompleteness::Complete
        )))),
        Ok(())
    );
    match start_recheck(Ok(()), later(5)) {
        StepOutcome::Advance { detail, patch } => {
            assert_eq!(detail, None);
            assert_eq!(patch.rechecking_started_at, Some(later(5)));
        }
        other => panic!("unexpected {other:?}"),
    }
}

// --- Verifying and resuming ---

fn checked(state: ClientTorrentState, completeness: DataCompleteness) -> StepOutcome {
    verify(
        &staged_job(RepairState::Rechecking),
        &willing(),
        later(60),
        Ok(Some(status(state, completeness))),
    )
}

#[test]
fn complete_data_is_verified_and_incomplete_data_held() {
    assert!(matches!(
        checked(ClientTorrentState::Paused, DataCompleteness::Complete),
        StepOutcome::Advance { .. }
    ));
    assert_eq!(
        parks(&checked(ClientTorrentState::Paused, half())),
        ReviewReason::IncompleteData
    );
    assert_eq!(
        parks(&checked(ClientTorrentState::Errored, half())),
        ReviewReason::RecheckErrored
    );
}

#[test]
fn a_held_repair_keeps_what_is_known_per_file() {
    let mut found = status(ClientTorrentState::Paused, half());
    found.files = Some(vec![FileProgress {
        torrent_path: path("e01.mkv"),
        completeness: half(),
    }]);
    match verify(
        &staged_job(RepairState::Rechecking),
        &willing(),
        later(60),
        Ok(Some(found)),
    ) {
        StepOutcome::Review { patch, .. } => {
            let progress = patch.file_progress.expect("recorded");
            assert_eq!(progress[0].ratio_bits, 0.5f64.to_bits());
        }
        other => panic!("unexpected {other:?}"),
    }
}

#[test]
fn a_running_check_is_waited_for_until_it_times_out() {
    let mut rechecking = staged_job(RepairState::Rechecking);
    rechecking.rechecking_started_at = Some(now());
    let checking = || Ok(Some(status(ClientTorrentState::Checking, half())));
    match verify(&rechecking, &willing(), later(10), checking()) {
        StepOutcome::Wait { after, note, .. } => {
            assert_eq!(after, Duration::from_secs(15));
            assert_eq!(note, "hash check in progress");
        }
        other => panic!("unexpected {other:?}"),
    }
    match verify(&rechecking, &willing(), later(14_400), checking()) {
        StepOutcome::Review { reason, detail, .. } => {
            assert_eq!(reason, ReviewReason::RecheckTimedOut);
            assert_eq!(
                detail,
                Some(Json::fact("elapsed_seconds", Json::Unsigned(14_400)))
            );
        }
        other => panic!("unexpected {other:?}"),
    }
    let mut queued = status(ClientTorrentState::Checking, half());
    queued.queued = true;
    match verify(&rechecking, &willing(), later(10), Ok(Some(queued))) {
        StepOutcome::Wait { after, note, .. } => {
            assert_eq!(after, Duration::from_secs(300));
            assert_eq!(note, "hash check queued");
        }
        other => panic!("unexpected {other:?}"),
    }
}

#[test]
fn only_complete_data_is_resumed_and_only_with_permission() {
    let complete = || {
        Ok(Some(status(
            ClientTorrentState::Paused,
            DataCompleteness::Complete,
        )))
    };
    let verified = staged_job(RepairState::Verified);
    let (target, seen) =
        may_resume(&verified, &willing(), now(), complete()).expect("may resume");
    assert_eq!(target, hash());
    match resume(&seen, Ok(())) {
        StepOutcome::Advance { detail, .. } => assert_eq!(
            detail,
            Some(Json::fact("resumed", Json::Bool(true)).with(
                "completeness",
                Json::fact("completeness", Json::text("complete"))
            ))
        ),
        other => panic!("unexpected {other:?}"),
    }
    let cautious = SafetyPolicy::default();
    let held = may_resume(&verified, &cautious, now(), complete()).expect_err("held");
    assert_eq!(parks(&held), ReviewReason::AutoResumeDisabled);
    let mut approved = staged_job(RepairState::Verified);
    approved.resume_approved = true;
    assert!(may_resume(&approved, &cautious, now(), complete()).is_ok());
    let mut aliased = staged_job(RepairState::Verified);
    aliased.resume_approved = true;
    aliased.materialization = Some(MaterializationStrategy::Hardlink);
    let held = may_resume(
        &aliased,
        &willing(),
        now(),
        Ok(Some(status(ClientTorrentState::Paused, half()))),
    )
    .expect_err("held");
    assert_eq!(parks(&held), ReviewReason::AliasedIncompleteData);
}

// --- Confirming ---

#[test]
fn only_the_tracker_completes_a_repair() {
    let seeding = staged_job(RepairState::Seeding);
    assert_eq!(
        read_tracker(&seeding, Some(Ok(HitAndRunStatus::Cleared))),
        Err(StepOutcome::advance())
    );
    let next =
        read_tracker(&seeding, Some(Ok(HitAndRunStatus::Active))).expect("still outstanding");
    assert!(next.understood);
    let seen = status(ClientTorrentState::Seeding, DataCompleteness::Complete);
    match confirm_with_tracker(&seeding, &willing(), next.understood, &seen) {
        StepOutcome::Wait { after, note, patch } => {
            assert_eq!(after, Duration::from_secs(900));
            assert_eq!(note, "tracker still shows the hit-and-run as outstanding");
            assert_eq!(patch.uploaded_bytes, Some(5));
            assert_eq!(patch.consecutive_unknown_tracker_status, Some(0));
        }
        other => panic!("unexpected {other:?}"),
    }
}

#[test]
fn too_many_answers_that_cannot_be_interpreted_park_the_repair() {
    let mut seeding = staged_job(RepairState::Seeding);
    let seen = status(ClientTorrentState::Seeding, DataCompleteness::Complete);
    seeding.consecutive_unknown_tracker_status = 8;
    match confirm_with_tracker(&seeding, &willing(), false, &seen) {
        StepOutcome::Wait { patch, .. } => {
            assert_eq!(patch.consecutive_unknown_tracker_status, Some(9))
        }
        other => panic!("unexpected {other:?}"),
    }
    seeding.consecutive_unknown_tracker_status = 9;
    let parked = confirm_with_tracker(&seeding, &willing(), false, &seen);
    assert_eq!(parks(&parked), ReviewReason::TrackerStatusUnclear);
}

#[test]
fn the_client_is_checked_on_every_poll() {
    let seeding = staged_job(RepairState::Seeding);
    let look = |state, completeness| {
        check_client(&seeding, &willing(), Ok(Some(status(state, completeness))))
    };
    assert!(matches!(
        look(ClientTorrentState::Seeding, DataCompleteness::Complete),
        ClientCheck::Healthy(_)
    ));
    assert!(matches!(
        look(ClientTorrentState::Paused, DataCompleteness::Complete),
        ClientCheck::Resume(_)
    ));
    match look(ClientTorrentState::Paused, half()) {
        ClientCheck::Exit(outcome) => assert_eq!(parks(&outcome), ReviewReason::IncompleteData),
        other => panic!("unexpected {other:?}"),
    }
    match look(ClientTorrentState::Downloading, half()) {
        ClientCheck::Exit(outcome) => {
            assert_eq!(parks(&outcome), ReviewReason::DownloadingDuringSeeding)
        }
        other => panic!("unexpected {other:?}"),
    }
    assert!(matches!(
        look(ClientTorrentState::Errored, half()),
        ClientCheck::Exit(StepOutcome::Rewind {
            to: RepairState::Staged,
            ..
        })
    ));
    assert!(matches!(
        after_resume(
            status(ClientTorrentState::Paused, DataCompleteness::Complete),
            Err(ClientError::Transport("down".to_owned()))
        ),
        ClientCheck::Exit(StepOutcome::Retry { .. })
    ));
}

// --- Discovery ---

fn known(last_success: Option<Timestamp>, notified: bool) -> TrackerHealth {
    TrackerHealth {
        stub: false,
        last_success,
        last_error: None,
        notified_unreachable: notified,
    }
}

#[test]
fn an_empty_tracker_map_is_a_no_op() {
    let run = DiscoveryRun::default();
    assert_eq!(run.summary, DiscoverySummary::default());
    let events = run.finish(now());
    assert_eq!(events.len(), 1);
}

#[test]
fn a_run_announces_what_changed() {
    let mut run = DiscoveryRun::default();
    run.tracker_answered(&known(None, false), 2);
    run.recorded(&Ok(Discovered {
        id: JobId(3),
        created: true,
    }));
    run.recorded(&Ok(Discovered {
        id: JobId(1),
        created: false,
    }));
    run.tracker_failed(&known(None, false));
    assert_eq!(
        run.summary,
        DiscoverySummary {
            warnings_seen: 2,
            jobs_created: 1,
            trackers_failed: 1
        }
    );
    let events = run.finish(now());
    assert_eq!(
        events[0],
        EventKind::JobsChanged {
            jobs: vec![JobId(3)]
        }
    );
    assert_eq!(events[1], EventKind::TrackersChanged);
    match &events[2] {
        EventKind::Activity(activity) => {
            assert_eq!(activity.kind, ActivityKind::Discovery);
            assert_eq!(activity.jobs_created, 1);
            assert_eq!(activity.trackers_failed, 1);
        }
        other => panic!("unexpected {other:?}"),
    }
}

#[test]
fn a_tracker_is_announced_when_its_reachability_changes_and_only_then() {
    let id = TrackerId::new("alpha");
    let limit = Duration::from_secs(1800);
    let mut diagnostics = Diagnostics::default();
    // Whether the poll answers, and whether that is a change.
    let polls = [
        (true, false),
        (true, false),
        (false, true),
        (false, false),
        (true, true),
        (true, false),
        (false, true),
        (true, true),
    ];
    for (i, (answers, changes)) in polls.into_iter().enumerate() {
        let answer: Result<Vec<HitAndRun>, TrackerError> = if answers {
            Ok(Vec::new())
        } else {
            Err(TrackerError::Transport("refused".to_owned()))
        };
        let mut run = DiscoveryRun::default();
        let moment = later(60 * i as u64);
        tracker_polled(&mut run, &mut diagnostics, &id, moment, &answer, limit);
        assert_eq!(run.health_changed, changes, "poll {i}");
        assert_eq!(diagnostics.tracker_health(&id).unreachable(), !answers);
    }
}

#[test]
fn a_first_failure_is_a_change_and_a_first_answer_is_not() {
    assert!(!TrackerHealth::default().unreachable());
    let mut run = DiscoveryRun::default();
    run.tracker_answered(&TrackerHealth::default(), 0);
    assert!(!run.health_changed);
    run.tracker_failed(&TrackerHealth::default());
    assert!(run.health_changed);

    let mut never = known(None, false);
    never.last_error = Some((now(), "down".to_owned()));
    let mut run = DiscoveryRun::default();
    run.tracker_failed(&never);
    assert!(!run.health_changed);
    run.tracker_answered(&never, 0);
    assert!(run.health_changed);
}

#[test]
fn an_outage_is_reported_once_and_only_after_a_while() {
    let id = TrackerId::new("alpha");
    let limit = Duration::from_secs(1800);
    let since = known(Some(now()), false);
    assert_eq!(
        notify_if_unreachable_too_long(&id, &since, later(1799), limit),
        None
    );
    assert_eq!(
        notify_if_unreachable_too_long(&id, &since, later(1800), limit),
        Some(NotificationEvent::TrackerUnreachable {
            tracker: "alpha".to_owned(),
            unreachable_for: limit
        })
    );
    assert_eq!(
        notify_if_unreachable_too_long(&id, &known(Some(now()), true), later(9999), limit),
        None
    );
    assert_eq!(
        notify_if_unreachable_too_long(&id, &known(None, false), later(9999), limit),
        None
    );
}

#[test]
fn a_failed_poll_is_counted_remembered_and_reported_once() {
    let id = TrackerId::new("alpha");
    let limit = Duration::from_secs(1800);
    let mut run = DiscoveryRun::default();
    let mut diagnostics = Diagnostics::default();
    let down: Result<Vec<HitAndRun>, TrackerError> =
        Err(TrackerError::Transport("refused".to_owned()));

    let told = tracker_polled(&mut run, &mut diagnostics, &id, now(), &Ok(Vec::new()), limit);
    assert_eq!(told, None);
    let told = tracker_polled(&mut run, &mut diagnostics, &id, later(1799), &down, limit);
    assert_eq!(told, None);
    let told = tracker_polled(&mut run, &mut diagnostics, &id, later(1800), &down, limit);
    assert_eq!(
        told,
        Some(NotificationEvent::TrackerUnreachable {
            tracker: "alpha".to_owned(),
            unreachable_for: limit
        })
    );
    let told = tracker_polled(&mut run, &mut diagnostics, &id, later(1900), &down, limit);
    assert_eq!(told, None);
    assert_eq!(run.summary.trackers_failed, 3);
    assert!(run.health_changed);
    let health = diagnostics.tracker_health(&id);
    assert_eq!(health.last_success, Some(now()));
    assert!(health.notified_unreachable);
    let told = tracker_polled(&mut run, &mut diagnostics, &id, later(2000), &Ok(Vec::new()), limit);
    assert_eq!(told, None);
    assert!(!diagnostics.tracker_health(&id).notified_unreachable);
}

// --- The worker ---

fn advance() -> Event {
    Event::Stepped(StepOutcome::advance())
}

#[test]
fn the_worker_has_its_defaults() {
    let config = WorkerConfig::default();
    assert_eq!(config.owner, "seedmedic");
    assert_eq!(config.lease, Duration::from_secs(300));
    assert_eq!(config.batch_size, 4);
    assert_eq!(MAX_STEPS, 2 * RepairState::progression().len());
}

#[test]
fn an_advancing_job_is_recorded_renewed_and_stepped_again() {
    let mut summary = TickSummary::default();
    let policy = willing();
    let (drive, action) = Drive::start(job(RepairState::Discovered));
    assert_eq!(action, Action::Step);
    let (drive, action) = drive.next(advance(), &policy, now(), &mut summary);
    match action {
        Action::Record(transition, update) => {
            assert_eq!(transition.to(), RepairState::TorrentFetched);
            assert_eq!(update, TransitionUpdate::default());
        }
        other => panic!("unexpected {other:?}"),
    }
    let (drive, action) = drive.next(
        Event::Recorded(Ok(Applied::Applied)),
        &policy,
        now(),
        &mut summary,
    );
    assert_eq!(action, Action::RenewLease);
    assert_eq!(summary.advanced, 1);
    let (drive, action) = drive.next(Event::Renewed(Ok(true)), &policy, now(), &mut summary);
    assert_eq!(action, Action::Reload);
    let (_, action) = drive.next(
        Event::Reloaded(Ok(Some(job(RepairState::TorrentFetched)))),
        &policy,
        now(),
        &mut summary,
    );
    assert_eq!(action, Action::Step);
}

#[test]
fn a_lost_lease_is_abandoned_not_released() {
    let mut summary = TickSummary::default();
    let policy = willing();
    let (drive, _) = Drive::start(job(RepairState::Discovered));
    let (drive, _) = drive.next(advance(), &policy, now(), &mut summary);
    let (drive, _) = drive.next(
        Event::Recorded(Ok(Applied::AlreadyInTargetState)),
        &policy,
        now(),
        &mut summary,
    );
    assert_eq!(summary.advanced, 0);
    let (_, action) = drive.next(Event::Renewed(Ok(false)), &policy, now(), &mut summary);
    assert_eq!(action, Action::Abandon);
}

#[test]
fn a_failure_is_scheduled_and_the_last_one_parks() {
    let mut summary = TickSummary::default();
    let policy = willing();
    let failed = || {
        Event::Stepped(StepOutcome::Retry {
            error: "down".to_owned(),
        })
    };
    let (drive, _) = Drive::start(job(RepairState::Discovered));
    let (_, action) = drive.next(failed(), &policy, now(), &mut summary);
    assert_eq!(
        action,
        Action::Release(Stop {
            retry_at: Some(later(30)),
            count_attempt: true
        })
    );
    let mut tired = job(RepairState::Discovered);
    tired.attempts = 4;
    let (drive, _) = Drive::start(tired);
    let (drive, action) = drive.next(failed(), &policy, now(), &mut summary);
    match action {
        Action::Record(transition, update) => {
            assert_eq!(transition.to(), RepairState::AwaitingReview);
            assert_eq!(
                update.detail,
                Some(Json::fact("attempts", Json::Unsigned(5)).with("error", Json::text("down")))
            );
        }
        other => panic!("unexpected {other:?}"),
    }
    let (_, action) = drive.next(
        Event::Recorded(Err(StoreError::Database("locked".to_owned()))),
        &policy,
        now(),
        &mut summary,
    );
    assert_eq!(action, Action::Release(Stop::idle()));
    assert_eq!(summary.retrying, 2);
}

#[test]
fn waiting_keeps_telemetry_and_costs_no_attempt() {
    let mut summary = TickSummary::default();
    let mut patch = JobPatch::default();
    patch.uploaded_bytes = Some(9);
    let waits = Event::Stepped(StepOutcome::wait_with(
        Duration::from_secs(60),
        "not yet",
        patch,
    ));
    let (drive, _) = Drive::start(job(RepairState::Seeding));
    let (drive, action) = drive.next(waits, &willing(), now(), &mut summary);
    match action {
        Action::Note(noted) => assert_eq!(noted.uploaded_bytes, Some(9)),
        other => panic!("unexpected {other:?}"),
    }
    let (_, action) = drive.next(Event::Noted(Ok(())), &willing(), now(), &mut summary);
    assert_eq!(
        action,
        Action::Release(Stop {
            retry_at: Some(later(60)),
            count_attempt: false
        })
    );
    assert_eq!(summary.waiting, 1);
}

#[test]
fn a_rewind_is_recorded_with_its_reason() {
    let mut summary = TickSummary::default();
    let (drive, _) = Drive::start(job(RepairState::Seeding));
    let (drive, action) = drive.next(
        Event::Stepped(StepOutcome::rewind(RepairState::Staged, "gone")),
        &willing(),
        now(),
        &mut summary,
    );
    match action {
        Action::Record(transition, update) => {
            assert_eq!(transition.to(), RepairState::Staged);
            assert_eq!(
                update.detail,
                Some(Json::fact("note", Json::text("gone")).with("from", Json::text("seeding")))
            );
        }
        other => panic!("unexpected {other:?}"),
    }
    let (_, action) = drive.next(
        Event::Recorded(Ok(Applied::Applied)),
        &willing(),
        now(),
        &mut summary,
    );
    assert_eq!(action, Action::Reload);
    assert_eq!(summary.rewound, 1);
}

#[test]
fn a_job_that_goes_in_circles_is_let_go() {
    let mut summary = TickSummary::default();
    let policy = willing();
    let (mut drive, mut action) = Drive::start(job(RepairState::Discovered));
    let mut steps = 0;
    while let Action::Step = action {
        steps += 1;
        let (d, _) = drive.next(advance(), &policy, now(), &mut summary);
        let (d, _) = d.next(
            Event::Recorded(Ok(Applied::Applied)),
            &policy,
            now(),
            &mut summary,
        );
        let (d, _) = d.next(Event::Renewed(Ok(true)), &policy, now(), &mut summary);
        let (d, a) = d.next(
            Event::Reloaded(Ok(Some(job(RepairState::Discovered)))),
            &policy,
            now(),
            &mut summary,
        );
        drive = d;
        action = a;
    }
    assert_eq!(steps, MAX_STEPS);
    assert_eq!(action, Action::Release(Stop::idle()));
}

// --- Reconciliation ---

#[test]
fn a_torrent_that_is_gone_sends_the_repair_back_to_injection() {
    let seeding = staged_job(RepairState::Seeding);
    assert_eq!(torrent_to_ask_about(&seeding), Some(hash()));
    assert_eq!(torrent_to_ask_about(&job(RepairState::Matched)), None);
    let (transition, update) =
        reconcile_job(&seeding, &Some(Ok(None)), &None).expect("rewound");
    assert_eq!(transition.from(), RepairState::Seeding);
    assert_eq!(transition.to(), RepairState::Staged);
    assert_eq!(
        update.detail,
        Some(
            Json::fact(
                "reason",
                Json::text("external state was behind the persisted state")
            )
            .with("from", Json::text("seeding"))
            .with("to", Json::text("staged"))
        )
    );
}

#[test]
fn lost_data_sends_the_repair_back_to_staging() {
    let seeding = staged_job(RepairState::Seeding);
    let plan = staging_plan(&seeding, &Ok(vec![planned("e01.mkv")])).expect("a plan");
    assert_eq!(plan.items[0].destination.as_str(), "job-7/e01.mkv");
    let (transition, _) = reconcile_job(
        &seeding,
        &Some(Ok(None)),
        &Some(Ok(StagingPresence::Absent)),
    )
    .expect("rewound");
    assert_eq!(transition.to(), RepairState::Matched);
}

#[test]
fn what_cannot_be_told_moves_nothing() {
    let seeding = staged_job(RepairState::Seeding);
    assert!(reconcile_job(
        &seeding,
        &Some(Err(ClientError::Transport("down".to_owned()))),
        &Some(Err(StagingError::Io("odd".to_owned())))
    )
    .is_none());
    assert!(reconcile_job(&seeding, &None, &Some(Ok(StagingPresence::Complete))).is_none());
    // A parked repair is never moved.
    let mut parked = staged_job(RepairState::AwaitingReview);
    parked.review_from_state = Some(RepairState::Seeding);
    assert!(reconcile_job(&parked, &Some(Ok(None)), &None).is_none());
}

#[test]
fn a_parked_repair_resumes_where_reality_supports_it() {
    let mut parked = staged_job(RepairState::AwaitingReview);
    parked.review_from_state = Some(RepairState::Seeding);
    assert_eq!(torrent_to_ask_about(&parked), Some(hash()));
    assert_eq!(
        corrected_resume_point(&parked, &Some(Ok(None)), &None),
        Some(RepairState::Staged)
    );
    assert_eq!(corrected_resume_point(&parked, &None, &None), None);
    assert_eq!(
        corrected_resume_point(&staged_job(RepairState::Seeding), &Some(Ok(None)), &None),
        None
    );
    parked.review_from_state = Some(RepairState::Discovered);
    assert_eq!(torrent_to_ask_about(&parked), None);
    assert!(staging_plan(&parked, &Ok(vec![planned("e01.mkv")])).is_none());
}

#[test]
fn only_parking_and_completion_are_news() {
    let seeding = staged_job(RepairState::Seeding);
    let done = seeding.advance().expect("a last step");
    assert_eq!(done.to(), RepairState::Completed);
    assert_eq!(
        news_of(&seeding, &done),
        Some(NotificationEvent::Completed {
            job: seeding.id,
            tracker: seeding.tracker.as_str().to_owned(),
            torrent_name: seeding.torrent_name.clone(),
        })
    );
    let park = seeding
        .plan_transition(
            RepairState::AwaitingReview,
            TransitionReason::Review(ReviewReason::NoCandidates),
        )
        .expect("any repair can be parked");
    assert!(matches!(
        news_of(&seeding, &park),
        Some(NotificationEvent::ParkedForReview {
            reason: "no_candidates",
            ..
        })
    ));
    let on = job(RepairState::Matched).advance().expect("a next step");
    assert_eq!(news_of(&job(RepairState::Matched), &on), None);
    assert_eq!(
        told_of(JobId(7), &on),
        EventKind::JobTransitioned {
            job: JobId(7),
            from: RepairState::Matched,
            to: RepairState::Staged,
            reason: "progress"
        }
    );
    let summary = TickSummary {
        claimed: 3,
        parked: 1,
        ..TickSummary::default()
    };
    assert_eq!(summary.activity(now()).claimed, 3);
    assert_eq!(summary.activity(now()).at, Some(now()));
}

#[test]
fn reconciliation_is_summed_up() {
    let mut summary =
        ReconcileSummary::begin(&Ok(2), &Ok(vec![staged_job(RepairState::Seeding)]));
    summary.count(&Ok(Applied::Applied));
    summary.count(&Err(StoreError::Database("locked".to_owned())));
    assert_eq!(
        summary,
        ReconcileSummary {
            leases_cleared: 2,
            jobs_examined: 1,
            jobs_rewound: 1
        }
    );
}
