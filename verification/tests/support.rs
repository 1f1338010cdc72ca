use seedmedic::clock::{Duration, TestClock, Timestamp};
use seedmedic::connectivity::{
    test_arr, test_download_client, test_tracker, truncate, ProbeResult, MAX_DETAIL_CHARS,
    PROBE_RELEASE_TITLE, PROBE_TIMEOUT_SECS,
};
use seedmedic::diagnostics::Diagnostics;
use seedmedic::events::{Activity, ActivityKind, EventBus, EventKind};
use seedmedic::json::Json;
use seedmedic::library::CandidateError;
use seedmedic::metrics::Metrics;
use seedmedic::not_implemented::NotImplemented;
use seedmedic::notify::{webhook_reply, NotificationEvent, NotifyError};
use seedmedic::paths::{directory_of, file_name, same_path, sorts_before, starts_with};
use seedmedic::repair::domain::{JobId, RepairState};
use seedmedic::seeding::adapters::fake::FakeTorrentClient;
use seedmedic::seeding::adapters::qbittorrent::QBittorrentClient;
use seedmedic::seeding::adapters::unconfigured::UnconfiguredClient;
use seedmedic::seeding::{
    AddTorrent, ClientError, ClientSummary, ClientTorrentState, DataCompleteness,
};
use seedmedic::sorting::sort_by_key;
use seedmedic::table::Table;
use seedmedic::text::{
    decimal_of, join, same_ignoring_case, signed_decimal_of, split, trim,
};
use seedmedic::torrent::InfoHash;
use seedmedic::tracker::{TrackerError, TrackerId};

fn now() -> Timestamp {
    TestClock::default().now()
}

// --- Connection tests ---

#[test]
fn a_long_message_is_truncated() {
    let long = "x".repeat(10_000);
    let truncated = truncate(&long);
    assert_eq!(truncated.chars().count(), MAX_DETAIL_CHARS + 1);
    assert!(truncated.ends_with('…'));
}

#[test]
fn a_short_message_is_untouched() {
    assert_eq!(truncate("short"), "short");
}

#[test]
fn a_healthy_tracker_reports_success_and_the_count() {
    let result = test_tracker(&Some(Ok(Vec::new())));
    assert!(result.ok);
    assert_eq!(result.detail, "reachable — 0 outstanding hit-and-run(s)");
}

#[test]
fn a_401_reports_rejected_credentials() {
    let result = test_tracker(&Some(Err(TrackerError::Unauthorized)));
    assert!(!result.ok);
    assert!(result.detail.contains("credentials"));
}

#[test]
fn a_tracker_that_never_responds_reports_a_failure_not_a_hang() {
    let result = test_tracker(&None);
    assert!(!result.ok);
    assert_eq!(
        result.detail,
        format!("timed out after {PROBE_TIMEOUT_SECS}s waiting for a response")
    );
}

#[test]
fn an_arr_probe_with_a_valid_key_and_an_unmatched_release_reports_success() {
    let result = test_arr(&Some(Ok(Vec::new())));
    assert!(result.ok, "{}", result.detail);
    assert!(PROBE_RELEASE_TITLE.contains("S01E01"));
}

#[test]
fn an_arr_probe_with_403_reports_the_rejected_key() {
    let result = test_arr(&Some(Err(CandidateError::Protocol(
        "sonarr:main rejected the configured API key".to_owned(),
    ))));
    assert!(!result.ok);
    assert!(result.detail.contains("API key"));
}

#[test]
fn a_download_client_probe_reports_the_torrent_count() {
    let result = test_download_client(&Some(Ok(ClientSummary { torrent_count: 1 })));
    assert!(result.ok, "{}", result.detail);
    assert_eq!(result.detail, "reachable — 1 torrent(s) known");
}

#[test]
fn a_download_client_probe_with_a_wrong_password_reports_rejected_credentials() {
    let result = test_download_client(&Some(Err(ClientError::Unauthorized)));
    assert!(!result.ok);
    assert!(result.detail.contains("credentials"));
    assert!(!ProbeResult::timed_out().ok);
}

// --- Metrics ---

#[test]
fn records_and_reports_a_transition() {
    let mut metrics = Metrics::default();
    metrics.record_transition("discovered", "torrent_fetched");
    metrics.record_transition("discovered", "torrent_fetched");

    let snapshot = metrics.snapshot();
    assert_eq!(snapshot.transitions.len(), 1);
    assert_eq!(snapshot.transitions[0].count, 2);
}

#[test]
fn averages_step_durations() {
    let mut metrics = Metrics::default();
    metrics.record_step_duration("matched", Duration::from_millis(100));
    metrics.record_step_duration("matched", Duration::from_millis(300));

    let snapshot = metrics.snapshot();
    assert_eq!(snapshot.step_durations[0].count, 2);
    assert_eq!(snapshot.step_durations[0].average_millis, 200);
}

#[test]
fn polls_are_counted_by_tracker_and_outcome() {
    let mut metrics = Metrics::default();
    metrics.record_tracker_poll("a", "success");
    metrics.record_tracker_poll("a", "error");
    metrics.record_tracker_poll("a", "error");
    let snapshot = metrics.snapshot();
    assert_eq!(snapshot.tracker_polls.len(), 2);
    let errors = snapshot
        .tracker_polls
        .iter()
        .find(|poll| poll.outcome == "error")
        .expect("counted");
    assert_eq!((errors.tracker.as_str(), errors.count), ("a", 2));
}

// --- Diagnostics ---

#[test]
fn reseed_drops_a_tracker_no_longer_configured() {
    let mut diagnostics = Diagnostics::new(vec![TrackerId::new("gone")]);

    diagnostics.reseed(&vec![(TrackerId::new("kept"), false)]);

    assert!(!diagnostics.knows(&TrackerId::new("gone")));
}

#[test]
fn reseed_keeps_history_for_a_tracker_that_remains() {
    let id = TrackerId::new("kept");
    let mut diagnostics = Diagnostics::default();
    diagnostics.record_tracker_success(&id, now());

    diagnostics.reseed(&vec![(id.clone(), false)]);

    assert!(diagnostics.tracker_health(&id).last_success.is_some());
}

#[test]
fn reseed_refreshes_the_stub_flag_of_a_surviving_tracker() {
    let id = TrackerId::new("switched");
    let mut diagnostics = Diagnostics::new(vec![id.clone()]);
    assert!(diagnostics.tracker_health(&id).stub);

    diagnostics.reseed(&vec![(id.clone(), false)]);

    assert!(!diagnostics.tracker_health(&id).stub);
}

#[test]
fn reseed_adds_an_entry_for_a_newly_configured_tracker() {
    let mut diagnostics = Diagnostics::default();

    diagnostics.reseed(&vec![(TrackerId::new("new"), true)]);

    assert!(diagnostics.tracker_health(&TrackerId::new("new")).stub);
}

#[test]
fn a_success_ends_the_outage_and_keeps_the_last_error() {
    let id = TrackerId::new("a");
    let mut diagnostics = Diagnostics::default();
    diagnostics.record_tracker_error(&id, now(), "down".to_owned());
    diagnostics.mark_tracker_unreachable_notified(&id);
    assert!(diagnostics.tracker_health(&id).notified_unreachable);
    diagnostics.record_tracker_success(&id, now());
    let health = diagnostics.tracker_health(&id);
    assert!(!health.notified_unreachable);
    assert_eq!(health.last_error, Some((now(), "down".to_owned())));
}

// --- Events ---

#[test]
fn publishing_with_no_subscriber_is_a_no_op_and_still_advances_seq() {
    let mut bus = EventBus::new();
    assert_eq!(bus.seq(), 0);

    bus.publish(EventKind::TrackersChanged);

    assert_eq!(bus.seq(), 1);
}

#[test]
fn a_published_event_carries_its_number() {
    let mut bus = EventBus::new();
    let event = bus.publish(EventKind::JobTransitioned {
        job: JobId(7),
        from: RepairState::Injected,
        to: RepairState::Rechecking,
        reason: "progress",
    });
    assert_eq!(event.seq, 1);
    match event.kind {
        EventKind::JobTransitioned { job, from, to, .. } => {
            assert_eq!(job, JobId(7));
            assert_eq!(from, RepairState::Injected);
            assert_eq!(to, RepairState::Rechecking);
        }
        other => panic!("unexpected event: {other:?}"),
    }
}

#[test]
fn the_latest_activity_of_each_kind_is_kept_separately() {
    let mut bus = EventBus::new();

    bus.publish(EventKind::Activity(Activity {
        kind: ActivityKind::Tick,
        advanced: 3,
        ..Activity::default()
    }));
    bus.publish(EventKind::Activity(Activity {
        kind: ActivityKind::Discovery,
        jobs_created: 2,
        ..Activity::default()
    }));

    let latest = bus.latest_activity();
    assert_eq!(latest.tick.expect("a tick was recorded").advanced, 3);
    assert_eq!(
        latest
            .discovery
            .expect("a discovery was recorded")
            .jobs_created,
        2
    );
    assert!(
        latest.reconcile.is_none(),
        "a kind that never happened must stay absent rather than reading as zero"
    );
}

// --- Notifications ---

#[test]
fn a_notification_is_a_flat_object() {
    let event = NotificationEvent::Completed {
        job: JobId(1),
        tracker: "example".to_owned(),
        torrent_name: "Demo".to_owned(),
    };
    assert_eq!(
        event.to_json(),
        Json::fact("event", Json::text("completed"))
            .with("job", Json::Signed(1))
            .with("tracker", Json::text("example"))
            .with("torrent_name", Json::text("Demo"))
    );
    let outage = NotificationEvent::TrackerUnreachable {
        tracker: "example".to_owned(),
        unreachable_for: Duration::from_secs(1800),
    };
    assert_eq!(
        outage.to_json(),
        Json::fact("event", Json::text("tracker_unreachable"))
            .with("tracker", Json::text("example"))
            .with("unreachable_for_seconds", Json::Unsigned(1800))
    );
}

#[test]
fn a_non_success_status_is_an_error() {
    let error = webhook_reply(500, "500 Internal Server Error").expect_err("a 500 is an error");
    assert_eq!(
        error,
        NotifyError::Transport("webhook returned status 500 Internal Server Error".to_owned())
    );
    assert_eq!(
        error.message(),
        "notification request failed: webhook returned status 500 Internal Server Error"
    );
    assert_eq!(webhook_reply(204, "204 No Content"), Ok(()));
}

// --- The in-memory download client ---

fn hash() -> InfoHash {
    InfoHash::from_bytes([1; 20])
}

fn torrent() -> AddTorrent {
    AddTorrent {
        info_hash: hash(),
        torrent_file: vec![1],
        save_path: "/srv/job-1".to_owned(),
        category: None,
    }
}

#[test]
fn adding_twice_adds_once() {
    let mut client = FakeTorrentClient::new();
    client.add_paused(&torrent()).expect("added");
    client.add_paused(&torrent()).expect("a no-op");
    assert_eq!(client.add_count(), 1);
    assert_eq!(client.summary(), Ok(ClientSummary { torrent_count: 1 }));
    client.remove(hash(), false).expect("removed");
    assert_eq!(client.summary(), Ok(ClientSummary { torrent_count: 0 }));
}

#[test]
fn a_recheck_takes_its_polls_and_then_pauses() {
    let mut client = FakeTorrentClient::new();
    client.add_paused(&torrent()).expect("added");
    client.recheck(hash()).expect("started");
    client.recheck(hash()).expect("a no-op");
    assert_eq!(client.recheck_count(), 1);
    let states: Vec<ClientTorrentState> = (0..3)
        .map(|_| {
            client
                .status(hash())
                .expect("answers")
                .expect("known")
                .state
        })
        .collect();
    assert_eq!(
        states,
        vec![
            ClientTorrentState::Checking,
            ClientTorrentState::Paused,
            ClientTorrentState::Paused
        ]
    );
}

#[test]
fn resuming_incomplete_data_downloads() {
    let mut client = FakeTorrentClient::new();
    client.add_paused(&torrent()).expect("added");
    client.set_on_disk(
        hash(),
        DataCompleteness::Partial {
            ratio_bits: 0.5f64.to_bits(),
        },
    );
    client.resume(hash()).expect("resumed");
    let status = client.status(hash()).expect("answers").expect("known");
    assert_eq!(status.state, ClientTorrentState::Downloading);
    client.set_on_disk(hash(), DataCompleteness::Complete);
    client.resume(hash()).expect("resumed");
    let status = client.status(hash()).expect("answers").expect("known");
    assert_eq!(status.state, ClientTorrentState::Seeding);
    assert_eq!(client.resume_count(), 2);
}

#[test]
fn a_forced_failure_is_used_up_by_one_call() {
    let mut client = FakeTorrentClient::new();
    client.fail_next_call_with(ClientError::Unauthorized);
    assert_eq!(client.status(hash()), Err(ClientError::Unauthorized));
    assert_eq!(client.status(hash()), Ok(None));
    assert_eq!(
        client.recheck(hash()),
        Err(ClientError::Rejected("unknown torrent".to_owned()))
    );
    let mut empty = torrent();
    empty.torrent_file = Vec::new();
    assert_eq!(
        client.add_paused(&empty),
        Err(ClientError::Rejected("empty torrent file".to_owned()))
    );
}

#[test]
fn surprises_can_be_forced() {
    let mut client = FakeTorrentClient::new();
    client.add_paused(&torrent()).expect("added");
    client.set_errored(hash(), "missing files");
    client.set_seeding_progress(hash(), 10, Some(20));
    let status = client.status(hash()).expect("answers").expect("known");
    assert_eq!(status.state, ClientTorrentState::Errored);
    assert_eq!(status.message.as_deref(), Some("missing files"));
    assert_eq!(status.uploaded_bytes, 10);
    assert_eq!(status.seeding_seconds, Some(20));
    client.force_state(hash(), ClientTorrentState::Paused);
    client.set_queued(hash(), true);
    let status = client.status(hash()).expect("answers").expect("known");
    assert_eq!(status.state, ClientTorrentState::Paused);
    assert!(!status.queued);
    client.recheck(hash()).expect("started");
    assert!(client.status(hash()).expect("answers").expect("known").queued);
    client.forget(hash());
    assert_eq!(client.status(hash()), Ok(None));
}

#[test]
fn every_method_names_download_client() {
    let adapter = UnconfiguredClient;
    let errors = [
        adapter.add_paused(&torrent()).unwrap_err().message(),
        adapter.status(hash()).unwrap_err().message(),
        adapter.recheck(hash()).unwrap_err().message(),
        adapter.resume(hash()).unwrap_err().message(),
        adapter.remove(hash(), false).unwrap_err().message(),
        adapter.summary().unwrap_err().message(),
    ];

    for error in errors {
        assert!(error.contains("download_client"), "{error}");
    }
}

#[test]
fn a_stub_says_that_it_is_one() {
    let stub = QBittorrentClient::new("http://localhost/".to_owned(), None);
    assert_eq!(
        stub.status(hash()),
        Err(ClientError::NotImplemented(NotImplemented::new(
            "seeding::adapters::qbittorrent",
            "docs/todos/0007-qbittorrent-adapter.md"
        )))
    );
}

// --- Small things ---

#[test]
fn spans_are_kept_to_the_nanosecond() {
    let span = Duration::from_millis(1_500);
    assert_eq!(span.as_secs(), 1);
    assert_eq!(span.as_nanos(), 1_500_000_000);
    assert!(Duration::zero().is_zero());
    assert_eq!(
        Duration::from_secs(u64::MAX).saturating_add(Duration::from_secs(1)),
        Duration::from_secs(u64::MAX).saturating_mul(2)
    );
    let mut clock = TestClock::default();
    let before = clock.now();
    clock.advance(span);
    assert_eq!(clock.now().since(before), Some(span));
    assert_eq!(before.since(clock.now()), None);
}

#[test]
fn numbers_are_written_in_decimal() {
    assert_eq!(decimal_of(0), "0");
    assert_eq!(decimal_of(1_234_567), "1234567");
    assert_eq!(signed_decimal_of(i64::MIN), "-9223372036854775808");
}

#[test]
fn texts_are_split_joined_and_trimmed() {
    assert_eq!(split("a//b", '/'), vec!["a", "", "b"]);
    assert_eq!(
        join(&["a".to_owned(), String::new(), "b".to_owned()], '/'),
        "a//b"
    );
    assert_eq!(trim("\u{3000} x y \n"), "x y");
    assert!(same_ignoring_case("AbC", "aBc"));
    assert!(!same_ignoring_case("\u{c9}", "\u{e9}"));
}

#[test]
fn paths_are_their_components() {
    assert!(starts_with("/srv/media/tv", "/srv//media/"));
    assert!(!starts_with("/srv/media2", "/srv/media"));
    assert!(same_path("/a//b/./c/", "/a/b/c"));
    assert_eq!(file_name("/a/b/").as_deref(), Some("b"));
    assert_eq!(file_name("/a/.."), None);
    assert_eq!(directory_of("/a/b"), "/a");
    assert_eq!(directory_of("b"), ".");
    // By components: a name that goes on comes after a separator.
    assert!(sorts_before("/a/z", "/a.b/a"));
}

#[test]
fn sorting_is_stable() {
    assert_eq!(
        sort_by_key(vec![(2, "b"), (1, "x"), (2, "a"), (1, "y")]),
        vec![(1, "x"), (1, "y"), (2, "b"), (2, "a")]
    );
}

#[test]
fn a_table_keeps_one_value_per_name() {
    let mut table: Table<String, u64> = Table::new();
    table.put("a".to_owned(), 1);
    table.put("b".to_owned(), 2);
    table.put("a".to_owned(), 3);
    assert_eq!(table.len(), 2);
    assert_eq!(table.get(&"a".to_owned()), Some(&3));
    table.remove(&"a".to_owned());
    assert_eq!(table.get(&"a".to_owned()), None);
    assert_eq!(table.get(&"b".to_owned()), Some(&2));
}
