use seedmedic::staging::adapters::local::{
    after_try, already_staged, check_source, check_space, discard_target, discarded, judge_place,
    next_try, plan_reflink_probe, predicted_cost, presence, probe_result, required_new_bytes,
    DeviceCapabilities, DeviceProbes, Devices, Existing, LocalStaging, Place, Removal, Survey, Try,
};
use seedmedic::staging::adapters::materialize::{
    Action as PlanAction, Event as PlanEvent, Materialize,
};
use seedmedic::staging::adapters::stage_one::{Action, Event, SourceFound, StageOne};
use seedmedic::staging::adapters::unconfigured::UnconfiguredStaging;
use seedmedic::staging::domain::{lexical_resolve, split_existing};
use seedmedic::staging::safety::{
    check_made_directory, levels, parent_levels, resolve_under, Found, Made,
};
use seedmedic::staging::{
    MaterializationPlan, MaterializationStrategy, PlanItem, ReflinkSupport, StagedFile,
    StagedLayout, StagingError, StagingPresence, StagingRoot, StagingRootError,
};
use seedmedic::torrent::SafeRelativePath;

const COPY: MaterializationStrategy = MaterializationStrategy::Copy;
const HARDLINK: MaterializationStrategy = MaterializationStrategy::Hardlink;
const REFLINK: MaterializationStrategy = MaterializationStrategy::Reflink;

fn path(text: &str) -> SafeRelativePath {
    SafeRelativePath::parse(text).expect("valid")
}

fn staged(strategy: MaterializationStrategy) -> StagedFile {
    StagedFile {
        path: path("job-1/e01.mkv"),
        strategy,
        bytes: 10,
    }
}

fn clear(n: usize) -> Vec<Found> {
    (0..n).map(|_| Found::Real).collect()
}

// --- Layouts and roots ---

#[test]
fn a_single_hardlink_makes_the_whole_layout_aliasing() {
    let layout = StagedLayout {
        files: vec![staged(REFLINK), staged(HARDLINK), staged(COPY)],
        reflink: None,
    };

    assert!(layout.aliases_library_files());
    assert_eq!(layout.summary_strategy(), Some(HARDLINK));
}

#[test]
fn reflink_only_layouts_do_not_alias() {
    let layout = StagedLayout {
        files: vec![staged(REFLINK)],
        reflink: None,
    };

    assert!(!layout.aliases_library_files());
    assert_eq!(layout.summary_strategy(), Some(REFLINK));
    assert_eq!(layout.total_bytes(), 10);
}

#[test]
fn staging_root_must_not_sit_inside_the_library() {
    assert!(matches!(
        StagingRoot::new(
            "/media/staging",
            Ok("/media/staging".to_owned()),
            &vec!["/media".to_owned()]
        ),
        Err(StagingRootError::OverlapsLibrary { .. })
    ));
}

#[test]
fn library_must_not_sit_inside_the_staging_root() {
    assert!(matches!(
        StagingRoot::new(
            "/srv",
            Ok("/srv".to_owned()),
            &vec!["/srv/media".to_owned()]
        ),
        Err(StagingRootError::OverlapsLibrary { .. })
    ));
}

#[test]
fn a_separate_directory_is_accepted_and_created() {
    let root = StagingRoot::new(
        "/srv/seedmedic/staging",
        Ok("/srv/seedmedic/staging".to_owned()),
        &vec!["/media".to_owned()],
    )
    .expect("accepted");

    assert_eq!(root.path(), "/srv/seedmedic/staging");
}

#[test]
fn relative_staging_roots_are_rejected() {
    assert!(matches!(
        StagingRoot::new("staging", Ok("staging".to_owned()), &vec![]),
        Err(StagingRootError::NotAbsolute(_))
    ));
}

#[test]
fn check_overlap_catches_a_staging_root_inside_the_library_before_it_is_created() {
    assert!(matches!(
        StagingRoot::check_overlap(
            "/media/not-created-yet/staging",
            "/media/not-created-yet/staging",
            &vec!["/media".to_owned()]
        ),
        Err(StagingRootError::OverlapsLibrary { .. })
    ));
}

#[test]
fn check_overlap_accepts_a_separate_directory_without_creating_it() {
    assert!(StagingRoot::check_overlap(
        "/srv/not-created-yet/staging",
        "/srv/not-created-yet/staging",
        &vec!["/media".to_owned()]
    )
    .is_ok());
}

#[test]
fn a_root_that_cannot_be_used_says_why() {
    let error = StagingRoot::new("/srv", Err("read-only".to_owned()), &vec![])
        .expect_err("unusable");
    assert_eq!(error.message(), "cannot use staging root /srv: read-only");
}

#[test]
fn a_path_that_does_not_exist_yet_is_resolved_from_where_it_does() {
    let paths: Vec<String> = ["/srv/link/a/b", "/srv/link/a", "/srv/link", "/srv", "/"]
        .iter()
        .map(|p| p.to_string())
        .collect();
    let split = split_existing(&paths, &vec![false, false, true, true, true]);
    assert_eq!(split.existing, "/srv/link");
    assert_eq!(split.missing, vec!["a", "b"]);
    assert_eq!(lexical_resolve("/mnt/real", &split.missing), "/mnt/real/a/b");
}

// --- The way to a file ---

#[test]
fn resolves_an_ordinary_path() {
    assert_eq!(
        resolve_under("/srv", &path("job-1/Show/e01.mkv"), &clear(4)).expect("resolves"),
        "/srv/job-1/Show/e01.mkv"
    );
}

#[test]
fn refuses_to_resolve_through_a_symlinked_directory() {
    let found = vec![Found::Real, Found::Symlink, Found::Nothing];
    match resolve_under("/srv", &path("job-1/e01.mkv"), &found) {
        Err(StagingError::UnsafePath { path, reason }) => {
            assert_eq!(path, "/srv/job-1");
            assert_eq!(reason, "path component is a symlink");
        }
        other => panic!("unexpected {other:?}"),
    }
}

#[test]
fn refuses_to_resolve_to_a_symlink() {
    let found = vec![Found::Real, Found::Real, Found::Symlink];
    match resolve_under("/srv", &path("job-1/e01.mkv"), &found) {
        Err(StagingError::UnsafePath { path, reason }) => {
            assert_eq!(path, "/srv/job-1/e01.mkv");
            assert_eq!(reason, "path component is a symlink");
        }
        other => panic!("unexpected {other:?}"),
    }
    assert_eq!(
        resolve_under("/srv", &path("job-1"), &vec![Found::Real, Found::Nothing]),
        Ok("/srv/job-1".to_owned())
    );
    assert_eq!(
        levels("/srv", &path("job-1/e01.mkv")),
        vec!["/srv", "/srv/job-1", "/srv/job-1/e01.mkv"]
    );
}

#[test]
fn a_job_directory_that_is_a_symlink_is_not_discarded() {
    assert!(matches!(
        discard_target("/srv", &path("job-1"), &vec![Found::Real, Found::Symlink]),
        Err(StagingError::UnsafePath { .. })
    ));
}

#[test]
fn creating_directories_stops_at_a_symlink() {
    assert_eq!(
        parent_levels("/srv", &path("job-1/Show/e01.mkv")),
        vec!["/srv", "/srv/job-1", "/srv/job-1/Show"]
    );
    assert!(matches!(
        check_made_directory("/srv/job-1", &Made::AlreadyThere, &Found::Symlink),
        Err(StagingError::UnsafePath { .. })
    ));
}

#[test]
fn creating_directories_is_idempotent() {
    check_made_directory("/srv/job-1", &Made::Created, &Found::Real).expect("first call");
    check_made_directory("/srv/job-1", &Made::AlreadyThere, &Found::Real).expect("second call");
}

#[test]
fn a_directory_that_cannot_be_made_or_looked_at_is_an_error() {
    assert_eq!(
        check_made_directory(
            "/srv/job-1",
            &Made::Failed("no space".to_owned()),
            &Found::Nothing
        ),
        Err(StagingError::Io("cannot create /srv/job-1: no space".to_owned()))
    );
    assert_eq!(
        resolve_under(
            "/srv",
            &path("e01.mkv"),
            &vec![Found::Unknown("denied".to_owned()), Found::Nothing]
        ),
        Err(StagingError::Io("cannot stat /srv: denied".to_owned()))
    );
}

// --- Devices, cost and space ---

fn supported() -> DeviceCapabilities {
    DeviceCapabilities {
        can_hardlink: true,
        reflink: ReflinkSupport::Supported,
    }
}

fn elsewhere() -> DeviceCapabilities {
    DeviceCapabilities {
        can_hardlink: false,
        reflink: ReflinkSupport::Unsupported {
            reason: "different devices".to_owned(),
        },
    }
}

fn no_reflink() -> DeviceCapabilities {
    DeviceCapabilities {
        can_hardlink: true,
        reflink: ReflinkSupport::Unsupported {
            reason: "reflink probe failed: unsupported".to_owned(),
        },
    }
}

fn item(length: u64) -> PlanItem {
    PlanItem {
        source: "/media/e01.mkv".to_owned(),
        destination: path("job-1/e01.mkv"),
        length,
        previous_strategy: None,
    }
}

#[test]
fn hardlink_is_never_attempted_across_devices() {
    assert!(matches!(
        next_try(&vec![HARDLINK], &elsewhere(), 0, None),
        Try::Done(Err(StagingError::StrategyUnavailable { .. }))
    ));
}

#[test]
fn reflink_falls_through_to_copy_when_unsupported() {
    assert_eq!(
        next_try(&vec![REFLINK, COPY], &no_reflink(), 0, None),
        Try::Do(1, COPY)
    );
}

#[test]
fn a_failing_hardlink_makes_way_for_the_next_strategy() {
    let preference = vec![HARDLINK, COPY];
    assert_eq!(
        after_try(
            &item(10),
            "/srv/job-1/e01.mkv",
            &preference,
            &supported(),
            0,
            Err("too many links".to_owned())
        ),
        Try::Do(1, COPY)
    );
    assert_eq!(
        after_try(
            &item(10),
            "/srv/job-1/e01.mkv",
            &vec![HARDLINK],
            &supported(),
            0,
            Err("too many links".to_owned())
        ),
        Try::Done(Err(StagingError::StrategyUnavailable {
            strategy: HARDLINK,
            reason: "too many links".to_owned()
        }))
    );
}

#[test]
fn a_failing_copy_or_reflink_is_a_failure() {
    assert_eq!(
        after_try(
            &item(10),
            "/srv/x",
            &vec![COPY, HARDLINK],
            &supported(),
            0,
            Err("disk full".to_owned())
        ),
        Try::Done(Err(StagingError::Io(
            "cannot copy /media/e01.mkv to /srv/x: disk full".to_owned()
        )))
    );
    assert_eq!(
        after_try(
            &item(10),
            "/srv/x",
            &vec![REFLINK, COPY],
            &supported(),
            0,
            Err("odd".to_owned())
        ),
        Try::Done(Err(StagingError::Io(
            "cannot reflink /media/e01.mkv to /srv/x: odd".to_owned()
        )))
    );
}

#[test]
fn nothing_permitted_is_nothing_tried() {
    assert_eq!(
        next_try(&vec![], &supported(), 0, None),
        Try::Done(Err(StagingError::NoStrategyPermitted))
    );
}

#[test]
fn the_device_probe_runs_once_for_a_many_file_plan() {
    let mut probes = DeviceProbes::new();
    let devices = Devices {
        source: 1,
        staging: 1,
    };
    assert!(probes.needs_probe(devices));
    for _ in 0..5 {
        let probed = if probes.needs_probe(devices) {
            Some(probe_result(Ok(())))
        } else {
            None
        };
        assert_eq!(probes.probe_devices(devices, probed), supported());
    }
    assert_eq!(probes.attempts(), 1);
    assert_eq!(probes.known(devices), Some(supported()));
}

#[test]
fn across_devices_nothing_is_probed_and_nothing_shared() {
    let mut probes = DeviceProbes::new();
    let devices = Devices {
        source: 1,
        staging: 2,
    };
    assert!(!probes.needs_probe(devices));
    let capabilities = probes.probe_devices(devices, None);
    assert!(!capabilities.can_hardlink);
    assert_eq!(
        capabilities.reflink,
        ReflinkSupport::Unsupported {
            reason: "source and staging are on different devices".to_owned()
        }
    );
}

#[test]
fn a_failed_probe_says_why() {
    assert_eq!(
        probe_result(Err("not supported".to_owned())),
        ReflinkSupport::Unsupported {
            reason: "reflink probe failed: not supported".to_owned()
        }
    );
    assert_eq!(plan_reflink_probe(&vec![COPY], Some(supported())), None);
    assert_eq!(
        plan_reflink_probe(&vec![REFLINK], Some(supported())),
        Some(ReflinkSupport::Supported)
    );
}

#[test]
fn only_a_copy_costs_space() {
    assert_eq!(predicted_cost(10, &vec![REFLINK, COPY], &supported()), 0);
    assert_eq!(predicted_cost(10, &vec![REFLINK, COPY], &no_reflink()), 10);
    assert_eq!(predicted_cost(10, &vec![HARDLINK], &supported()), 0);
    assert_eq!(predicted_cost(10, &vec![HARDLINK], &elsewhere()), 10);
}

fn survey(existing: Existing, capabilities: Option<DeviceCapabilities>) -> Survey {
    Survey {
        way: clear(3),
        existing,
        capabilities,
    }
}

#[test]
fn a_plan_larger_than_available_space_parks_and_writes_nothing() {
    let items = vec![item(100), item(200), item(400)];
    let surveys = vec![
        survey(
            Existing::File {
                length: 100,
                links: 1,
            },
            None,
        ),
        survey(Existing::Nothing, Some(no_reflink())),
        survey(Existing::Nothing, None),
    ];
    let needed = required_new_bytes("/srv", &items, &surveys, &vec![REFLINK, COPY]);
    assert_eq!(needed, Ok(600));
    assert_eq!(
        check_space(600, 1000, 500),
        Err(StagingError::InsufficientSpace {
            needed: 600,
            available: 1000,
            margin: 500
        })
    );
    assert_eq!(check_space(600, 1100, 500), Ok(()));
    // A plan that writes nothing is fine on a full disk.
    assert_eq!(check_space(0, 0, 500), Ok(()));
}

#[test]
fn the_cost_of_a_plan_saturates() {
    let items = vec![item(u64::MAX), item(1)];
    let surveys = vec![survey(Existing::Nothing, None), survey(Existing::Nothing, None)];
    assert_eq!(
        required_new_bytes("/srv", &items, &surveys, &vec![COPY]),
        Ok(u64::MAX)
    );
}

#[test]
fn a_symlink_on_the_way_stops_the_plan_before_it_writes() {
    let items = vec![item(100)];
    let surveys = vec![Survey {
        way: vec![Found::Real, Found::Real, Found::Symlink],
        existing: Existing::Symlink,
        capabilities: None,
    }];
    assert!(matches!(
        required_new_bytes("/srv", &items, &surveys, &vec![COPY]),
        Err(StagingError::UnsafePath { .. })
    ));
}

// --- One file ---

#[test]
fn materializing_twice_leaves_the_first_result_in_place() {
    let existing = Existing::File {
        length: 10,
        links: 1,
    };
    assert!(already_staged(existing, 10));
    let mut again = item(10);
    again.previous_strategy = Some(REFLINK);
    assert_eq!(
        judge_place(&again, "/srv/job-1/e01.mkv", existing),
        Ok(Place::Keep(StagedFile {
            path: path("job-1/e01.mkv"),
            strategy: REFLINK,
            bytes: 10
        }))
    );
}

#[test]
fn an_unrecorded_leftover_with_more_links_counts_as_a_hardlink() {
    for (links, strategy) in [(1, COPY), (2, HARDLINK)] {
        assert_eq!(
            judge_place(&item(10), "/srv/x", Existing::File { length: 10, links }),
            Ok(Place::Keep(staged(strategy)))
        );
    }
}

#[test]
fn a_leftover_of_another_size_is_replaced_and_a_symlink_refused() {
    assert_eq!(
        judge_place(
            &item(10),
            "/srv/x",
            Existing::File {
                length: 9,
                links: 1
            }
        ),
        Ok(Place::Replace)
    );
    assert_eq!(judge_place(&item(10), "/srv/x", Existing::Nothing), Ok(Place::Free));
    assert_eq!(
        judge_place(&item(10), "/srv/x", Existing::Symlink),
        Err(StagingError::UnsafePath {
            path: "/srv/x".to_owned(),
            reason: "destination exists and is a symlink"
        })
    );
}

#[test]
fn a_library_file_that_changed_since_matching_is_refused() {
    assert_eq!(
        check_source(&item(10), Some(11)),
        Err(StagingError::SourceChanged {
            path: "/media/e01.mkv".to_owned(),
            expected: 10,
            actual: 11
        })
    );
    assert_eq!(check_source(&item(10), Some(10)), Ok(()));
}

#[test]
fn a_missing_library_file_is_refused() {
    assert_eq!(
        check_source(&item(10), None),
        Err(StagingError::SourceMissing("/media/e01.mkv".to_owned()))
    );
}

#[test]
fn a_file_is_staged_step_by_step() {
    let (one, action) = StageOne::start("/srv", item(10), vec![REFLINK, COPY]);
    assert_eq!(
        action,
        Action::LookAlong(vec!["/srv".to_owned(), "/srv/job-1".to_owned()])
    );
    let (one, action) = one.next(Event::Along(vec![Found::Real, Found::Nothing]));
    assert_eq!(action, Action::LookAt("/srv/job-1/e01.mkv".to_owned()));
    let (one, action) = one.next(Event::At(Existing::File {
        length: 3,
        links: 1,
    }));
    assert_eq!(action, Action::RemoveFile("/srv/job-1/e01.mkv".to_owned()));
    let (one, action) = one.next(Event::Removed(Ok(())));
    assert_eq!(action, Action::LookAtSource("/media/e01.mkv".to_owned()));
    let (one, action) = one.next(Event::Source(Some(SourceFound {
        length: 10,
        device: 4,
    })));
    assert_eq!(action, Action::MakeDirectory("/srv/job-1".to_owned()));
    let (one, action) = one.next(Event::DirectoryMade(Made::Created, Found::Real));
    assert_eq!(action, Action::AskDevices(4));
    let (one, action) = one.next(Event::Capable(no_reflink()));
    assert_eq!(
        action,
        Action::Copy {
            from: "/media/e01.mkv".to_owned(),
            to: "/srv/job-1/e01.mkv".to_owned()
        }
    );
    let (_, action) = one.next(Event::Tried(Ok(())));
    assert_eq!(action, Action::Finish(Ok(staged(COPY))));
}

#[test]
fn a_changed_source_ends_the_staging_of_a_file() {
    let (one, _) = StageOne::start("/srv", item(10), vec![COPY]);
    let (one, _) = one.next(Event::Along(clear(2)));
    let (one, _) = one.next(Event::At(Existing::Nothing));
    let (_, action) = one.next(Event::Source(Some(SourceFound {
        length: 11,
        device: 4,
    })));
    assert!(matches!(
        action,
        Action::Finish(Err(StagingError::SourceChanged { .. }))
    ));
}

// --- A whole plan ---

#[test]
fn a_plan_that_does_not_fit_is_given_up_before_anything_is_written() {
    let (plan, action) = Materialize::start("/srv", vec![item(100), item(200)], vec![COPY], 50);
    assert_eq!(action, PlanAction::LookAtRoot);
    let (plan, action) = plan.next(PlanEvent::RootDevice(Ok(4)));
    assert_eq!(action, PlanAction::Survey(0));
    let (plan, action) = plan.next(PlanEvent::Surveyed(survey(Existing::Nothing, None)));
    assert_eq!(action, PlanAction::Survey(1));
    let (plan, action) = plan.next(PlanEvent::Surveyed(survey(Existing::Nothing, None)));
    assert_eq!(action, PlanAction::FindFreeSpace);
    let (_, action) = plan.next(PlanEvent::Free(Ok(349)));
    assert_eq!(
        action,
        PlanAction::Finish(Err(StagingError::InsufficientSpace {
            needed: 300,
            available: 349,
            margin: 50
        }))
    );
}

#[test]
fn a_plan_is_staged_file_by_file() {
    let (plan, _) = Materialize::start("/srv", vec![item(10)], vec![REFLINK, COPY], 0);
    let (plan, action) = plan.next(PlanEvent::RootDevice(Ok(4)));
    assert_eq!(action, PlanAction::AskAbout("/media/e01.mkv".to_owned()));
    let (plan, action) = plan.next(PlanEvent::First(Some(supported())));
    assert_eq!(action, PlanAction::Survey(0));
    let kept = Existing::File {
        length: 10,
        links: 1,
    };
    // What is in place already needs no room.
    let (plan, action) = plan.next(PlanEvent::Surveyed(survey(kept, Some(supported()))));
    assert_eq!(
        action,
        PlanAction::One(Action::LookAlong(vec![
            "/srv".to_owned(),
            "/srv/job-1".to_owned()
        ]))
    );
    let (plan, action) = plan.next(PlanEvent::One(Event::Along(clear(2))));
    assert_eq!(
        action,
        PlanAction::One(Action::LookAt("/srv/job-1/e01.mkv".to_owned()))
    );
    let (_, action) = plan.next(PlanEvent::One(Event::At(kept)));
    assert_eq!(
        action,
        PlanAction::Finish(Ok(StagedLayout {
            files: vec![staged(COPY)],
            reflink: Some(ReflinkSupport::Supported)
        }))
    );
}

#[test]
fn the_way_to_each_file_is_looked_along_right_before_it_is_staged() {
    let kept = Existing::File {
        length: 10,
        links: 1,
    };
    let deeper = PlanItem {
        source: "/media/e02.mkv".to_owned(),
        destination: path("job-1/season/e02.mkv"),
        length: 10,
        previous_strategy: None,
    };
    let (plan, _) = Materialize::start("/srv", vec![item(10), deeper], vec![COPY], 0);
    let (plan, _) = plan.next(PlanEvent::RootDevice(Ok(4)));
    let (plan, _) = plan.next(PlanEvent::Surveyed(survey(kept, Some(supported()))));
    let (plan, action) = plan.next(PlanEvent::Surveyed(Survey {
        way: clear(4),
        existing: kept,
        capabilities: Some(supported()),
    }));
    assert_eq!(
        action,
        PlanAction::One(Action::LookAlong(vec![
            "/srv".to_owned(),
            "/srv/job-1".to_owned()
        ]))
    );
    let (plan, _) = plan.next(PlanEvent::One(Event::Along(clear(2))));
    let (plan, action) = plan.next(PlanEvent::One(Event::At(kept)));
    assert_eq!(
        action,
        PlanAction::One(Action::LookAlong(vec![
            "/srv".to_owned(),
            "/srv/job-1".to_owned(),
            "/srv/job-1/season".to_owned()
        ]))
    );
    // A symlink that was planted in between stops the plan.
    let (_, action) = plan.next(PlanEvent::One(Event::Along(vec![
        Found::Real,
        Found::Real,
        Found::Symlink,
    ])));
    assert!(matches!(
        action,
        PlanAction::Finish(Err(StagingError::UnsafePath { path, .. })) if path == "/srv/job-1/season"
    ));
}

/// Stage one file of eight bytes where every strategy works.
fn staged_with(preference: Vec<MaterializationStrategy>) -> StagedLayout {
    let (mut plan, mut action) = Materialize::start("/srv", vec![item(8)], preference, 0);
    loop {
        let event = match action {
            PlanAction::LookAtRoot => PlanEvent::RootDevice(Ok(4)),
            PlanAction::AskAbout(_) => PlanEvent::First(Some(supported())),
            PlanAction::Survey(_) => {
                PlanEvent::Surveyed(survey(Existing::Nothing, Some(supported())))
            }
            PlanAction::FindFreeSpace => PlanEvent::Free(Ok(1 << 30)),
            PlanAction::One(Action::LookAlong(_)) => PlanEvent::One(Event::Along(clear(2))),
            PlanAction::One(Action::LookAt(_)) => PlanEvent::One(Event::At(Existing::Nothing)),
            PlanAction::One(Action::LookAtSource(_)) => {
                PlanEvent::One(Event::Source(Some(SourceFound {
                    length: 8,
                    device: 4,
                })))
            }
            PlanAction::One(Action::MakeDirectory(_)) => {
                PlanEvent::One(Event::DirectoryMade(Made::Created, Found::Real))
            }
            PlanAction::One(Action::AskDevices(_)) => PlanEvent::One(Event::Capable(supported())),
            PlanAction::One(_) => PlanEvent::One(Event::Tried(Ok(()))),
            PlanAction::Finish(result) => return result.expect("materializes"),
        };
        (plan, action) = plan.next(event);
    }
}

#[test]
fn copies_when_copy_is_the_only_permitted_strategy() {
    let layout = staged_with(vec![COPY]);
    assert_eq!(layout.files[0].strategy, COPY);
    assert!(!layout.aliases_library_files());
}

#[test]
fn reflinking_succeeds_when_the_filesystem_supports_it() {
    let layout = staged_with(vec![REFLINK]);
    assert_eq!(layout.files[0].strategy, REFLINK);
    assert!(!layout.aliases_library_files());
    assert_eq!(layout.reflink, Some(ReflinkSupport::Supported));
}

#[test]
fn hardlinking_is_recorded_as_aliasing_the_library() {
    assert!(staged_with(vec![HARDLINK]).aliases_library_files());
}

#[test]
fn a_root_that_cannot_be_looked_at_ends_the_plan() {
    let (plan, _) = Materialize::start("/srv", vec![item(10)], vec![COPY], 0);
    let (_, action) = plan.next(PlanEvent::RootDevice(Err("denied".to_owned())));
    assert_eq!(
        action,
        PlanAction::Finish(Err(StagingError::Io("cannot stat /srv: denied".to_owned())))
    );
}

// --- What is on disk ---

#[test]
fn inspect_reports_presence_and_discard_removes_it() {
    let items = vec![item(10), item(20)];
    let whole = Existing::File {
        length: 10,
        links: 1,
    };
    let half = Existing::File {
        length: 20,
        links: 1,
    };
    assert_eq!(
        presence(&items, &vec![whole, half]),
        StagingPresence::Complete
    );
    assert_eq!(
        presence(&items, &vec![whole, Existing::Nothing]),
        StagingPresence::Incomplete {
            present: 1,
            expected: 2
        }
    );
    assert_eq!(
        presence(&items, &vec![Existing::Symlink, Existing::Other]),
        StagingPresence::Absent
    );
    assert_eq!(
        discard_target("/srv", &path("job-1"), &clear(2)),
        Ok("/srv/job-1".to_owned())
    );
    assert_eq!(discarded("/srv/job-1", Removal::Removed), Ok(()));
}

#[test]
fn discarding_a_directory_that_is_not_there_is_fine() {
    assert_eq!(discarded("/srv/job-9", Removal::NotThere), Ok(()));
    assert_eq!(
        discarded("/srv/job-9", Removal::Failed("busy".to_owned())),
        Err(StagingError::Io("cannot remove /srv/job-9: busy".to_owned()))
    );
}

#[test]
fn the_save_path_lies_below_the_root() {
    let root = StagingRoot::new("/srv", Ok("/srv".to_owned()), &vec![]).expect("accepted");
    assert_eq!(
        LocalStaging::new(root, 0).save_path(&path("job-1")),
        "/srv/job-1"
    );
}

#[test]
fn staging_errors_are_explained() {
    assert_eq!(
        StagingError::InsufficientSpace {
            needed: 3,
            available: 2,
            margin: 1
        }
        .message(),
        "staging filesystem has 2 bytes free but this plan needs 3 bytes, after keeping 1 bytes free"
    );
    assert_eq!(
        StagingError::StrategyUnavailable {
            strategy: HARDLINK,
            reason: "no".to_owned()
        }
        .message(),
        "Hardlink is not available here: no"
    );
}

// --- No staging area ---

#[test]
fn root_path_is_empty_rather_than_panicking() {
    assert_eq!(UnconfiguredStaging.root_path(), "");
}

#[test]
fn every_fallible_method_names_staging_root() {
    let adapter = UnconfiguredStaging;
    let plan = MaterializationPlan { items: Vec::new() };
    let job_dir = path("job-1");

    let errors = [
        adapter.free_bytes().unwrap_err().message(),
        adapter.materialize(&plan, &[]).unwrap_err().message(),
        adapter.inspect(&plan).unwrap_err().message(),
        adapter.discard(&job_dir).unwrap_err().message(),
        adapter.usage(&job_dir).unwrap_err().message(),
    ];

    for error in errors {
        assert!(error.contains("staging.root"), "{error}");
    }
    assert_eq!(adapter.save_path(&job_dir), "job-1");
}
