use seedmedic::library::adapters::arr::{
    ArrCandidateSource, ArrFile, ArrKind, PathMapping,
};
use seedmedic::library::adapters::fake::FakeCandidateSource;
use seedmedic::library::adapters::arr_search::{
    Action, Answer, ArrSearch, Event, Release, Reply,
};
use seedmedic::library::adapters::filesystem::{
    cannot_read, Entry, EntryKind, FilesystemCandidateSource, Walk, MAX_DEPTH,
};
use seedmedic::library::verification::{
    file_byte_range, piece_byte_range, pieces_within_file, select_pieces,
};
use seedmedic::library::{
    plan_matches, Candidate, CandidateError, CandidateOrigin, CandidateQuery, MatchConfidence,
    UnmatchedReason,
};
use seedmedic::torrent::{SafeRelativePath, TorrentFile};

fn torrent_file(path: &str, length: u64) -> TorrentFile {
    TorrentFile {
        path: SafeRelativePath::parse(path).expect("valid test path"),
        length,
    }
}

fn candidate(path: &str, size_bytes: u64) -> Candidate {
    Candidate {
        path: path.to_owned(),
        size_bytes,
        origin: CandidateOrigin::Filesystem {
            root: "/media".to_owned(),
        },
    }
}

// --- Matching ---

#[test]
fn single_size_and_name_agreement_is_probable() {
    let files = vec![torrent_file("Show S01/e01.mkv", 100)];
    let candidates = vec![candidate("/media/Show/e01.mkv", 100)];

    let plan = plan_matches(&files, &candidates);

    assert!(plan.is_complete());
    assert_eq!(plan.matched[0].confidence, MatchConfidence::Probable);
    assert!(plan.matched[0].evidence.name_matches);
}

#[test]
fn size_agreement_alone_never_exceeds_ambiguous() {
    let files = vec![torrent_file("Show S01/e01.mkv", 100)];
    let candidates = vec![candidate("/media/Show/something-else.mkv", 100)];

    let plan = plan_matches(&files, &candidates);

    assert_eq!(plan.matched[0].confidence, MatchConfidence::Ambiguous);
    assert!(!plan.matched[0].evidence.name_matches);
    assert!(!plan.matched[0].evidence.piece_verified);
}

#[test]
fn several_indistinguishable_candidates_are_left_unmatched() {
    let files = vec![torrent_file("Show S01/e01.mkv", 100)];
    let candidates = vec![
        candidate("/media/a/other.mkv", 100),
        candidate("/media/b/other.mkv", 100),
    ];

    let plan = plan_matches(&files, &candidates);

    assert!(!plan.is_complete());
    assert_eq!(
        plan.unmatched[0].reason,
        UnmatchedReason::Ambiguous { candidates: 2 }
    );
}

#[test]
fn a_matching_name_breaks_a_size_tie() {
    let files = vec![torrent_file("Show S01/e01.mkv", 100)];
    let candidates = vec![
        candidate("/media/a/e01.mkv", 100),
        candidate("/media/b/other.mkv", 100),
    ];

    let plan = plan_matches(&files, &candidates);

    assert_eq!(plan.matched[0].source, "/media/a/e01.mkv");
    assert_eq!(plan.matched[0].confidence, MatchConfidence::Probable);
    assert_eq!(plan.matched[0].evidence.candidates_with_matching_size, 2);
}

#[test]
fn wrong_size_is_no_candidate_at_all() {
    let files = vec![torrent_file("Show S01/e01.mkv", 100)];
    let candidates = vec![candidate("/media/Show/e01.mkv", 99)];

    let plan = plan_matches(&files, &candidates);

    assert_eq!(plan.unmatched[0].reason, UnmatchedReason::NoCandidate);
}

#[test]
fn selection_is_deterministic_regardless_of_candidate_order() {
    let files = vec![torrent_file("Show S01/e01.mkv", 100)];
    let forward = vec![
        candidate("/media/a/e01.mkv", 100),
        candidate("/media/b/e01.mkv", 100),
    ];
    let reversed: Vec<Candidate> = forward.iter().rev().cloned().collect();

    // Two name-agreeing candidates are genuinely ambiguous either way.
    assert_eq!(
        plan_matches(&files, &forward),
        plan_matches(&files, &reversed)
    );
}

#[test]
fn a_plan_is_only_as_strong_as_its_weakest_file() {
    let files = vec![
        torrent_file("Show S01/e01.mkv", 100),
        torrent_file("Show S01/e02.mkv", 200),
    ];
    let candidates = vec![
        candidate("/media/Show/e01.mkv", 100),
        candidate("/media/Show/mystery.mkv", 200),
    ];

    let plan = plan_matches(&files, &candidates);

    assert!(plan.is_complete());
    assert_eq!(plan.lowest_confidence(), Some(MatchConfidence::Ambiguous));
}

#[test]
fn names_agree_whatever_their_ascii_case() {
    let files = vec![torrent_file("Show S01/E01.mkv", 100)];
    let candidates = vec![candidate("/media/Show/e01.MKV", 100)];
    assert_eq!(
        plan_matches(&files, &candidates).matched[0].confidence,
        MatchConfidence::Probable
    );
}

// --- Pieces ---

fn file(length: u64) -> TorrentFile {
    TorrentFile {
        path: SafeRelativePath::parse("f").expect("valid"),
        length,
    }
}

#[test]
fn file_byte_range_accounts_for_earlier_files() {
    let files = vec![file(100), file(200), file(50)];
    assert_eq!(file_byte_range(&files, 0), 0..100);
    assert_eq!(file_byte_range(&files, 1), 100..300);
    assert_eq!(file_byte_range(&files, 2), 300..350);
}

#[test]
fn piece_byte_range_is_regular_except_for_the_final_short_piece() {
    assert_eq!(piece_byte_range(0, 30, 100), 0..30);
    assert_eq!(piece_byte_range(1, 30, 100), 30..60);
    assert_eq!(piece_byte_range(2, 30, 100), 60..90);
    assert_eq!(piece_byte_range(3, 30, 100), 90..100);
}

#[test]
fn single_file_torrent_contains_every_piece() {
    let files = vec![file(100)];
    let range = file_byte_range(&files, 0);
    assert_eq!(pieces_within_file(&range, 30, 4, 100), vec![0, 1, 2, 3]);
}

#[test]
fn a_piece_spanning_a_file_boundary_belongs_to_neither_file() {
    let files = vec![file(100), file(100)];
    let piece_count = 7;
    let total = 200;

    let first = pieces_within_file(&file_byte_range(&files, 0), 30, piece_count, total);
    let second = pieces_within_file(&file_byte_range(&files, 1), 30, piece_count, total);

    assert_eq!(first, vec![0, 1, 2]);
    assert_eq!(second, vec![4, 5, 6]);
    assert!(!first.contains(&3));
    assert!(!second.contains(&3));
}

#[test]
fn the_final_short_piece_still_counts_when_it_fits_inside_a_file() {
    let files = vec![file(100), file(100)];
    let piece_count = 7;
    let total = 200;

    let second = pieces_within_file(&file_byte_range(&files, 1), 30, piece_count, total);

    assert!(second.contains(&6));
}

#[test]
fn a_file_smaller_than_one_piece_has_no_fully_contained_piece() {
    let files = vec![file(10), file(1000)];
    let piece_count = 34;
    let total = 1010;

    let first = pieces_within_file(&file_byte_range(&files, 0), 30, piece_count, total);
    assert!(first.is_empty());
}

#[test]
fn select_pieces_is_empty_when_disabled_or_nothing_is_available() {
    assert_eq!(select_pieces(&[1, 2, 3], 0), Vec::<usize>::new());
    assert_eq!(select_pieces(&[], 3), Vec::<usize>::new());
}

#[test]
fn select_pieces_takes_everything_when_fewer_are_available_than_requested() {
    assert_eq!(select_pieces(&[10, 20], 3), vec![10, 20]);
}

#[test]
fn select_pieces_spreads_first_middle_last() {
    assert_eq!(select_pieces(&[1, 2, 3, 4, 5], 3), vec![1, 3, 5]);
    assert_eq!(select_pieces(&[1, 2, 3, 4, 5], 1), vec![1]);
}

#[test]
fn select_pieces_is_deterministic() {
    let available: Vec<usize> = (0..50).collect();
    assert_eq!(select_pieces(&available, 3), select_pieces(&available, 3));
}

// --- *arr ---

fn mapping(from: &str, to: &str) -> PathMapping {
    PathMapping {
        from: from.to_owned(),
        to: to.to_owned(),
    }
}

fn source(kind: ArrKind, mappings: Vec<PathMapping>) -> ArrCandidateSource {
    ArrCandidateSource::new(kind, "main", "http://arr.test/", mappings)
}

fn query() -> CandidateQuery {
    CandidateQuery {
        torrent_name: "Show.S01.1080p.WEB-DL".to_owned(),
        files: vec![torrent_file("Show.S01.1080p.WEB-DL/e01.mkv", 10)],
    }
}

fn episode(season: i32, path: &str, size: u64) -> ArrFile {
    ArrFile {
        season: Some(season),
        path: path.to_owned(),
        size,
    }
}

#[test]
fn a_sonarr_season_pack_yields_one_candidate_per_episode_file() {
    let sonarr = source(ArrKind::Sonarr, Vec::new());
    let files = vec![
        episode(1, "/tv/e01.mkv", 10),
        episode(1, "/tv/e02.mkv", 20),
        episode(2, "/should/be/filtered.mkv", 99),
    ];

    let looked = sonarr.files_to_look_for(&files, Some(1));
    let candidates = sonarr.candidates(&looked, &vec![Some(10), Some(20)]);

    assert_eq!(candidates.len(), 2);
    assert!(candidates.iter().any(|c| c.path == "/tv/e01.mkv"));
    assert!(candidates.iter().any(|c| c.path == "/tv/e02.mkv"));
    assert!(candidates.iter().all(|c| c.origin
        == CandidateOrigin::Sonarr {
            instance: "main".to_owned()
        }));
}

#[test]
fn a_radarr_parse_response_yields_the_movie_file() {
    let radarr = source(ArrKind::Radarr, Vec::new());
    let files = vec![ArrFile {
        season: None,
        path: "/movies/movie.mkv".to_owned(),
        size: 1_000,
    }];

    let looked = radarr.files_to_look_for(&files, None);
    let candidates = radarr.candidates(&looked, &vec![Some(1_000)]);

    assert_eq!(candidates.len(), 1);
    assert_eq!(candidates[0].path, "/movies/movie.mkv");
    assert_eq!(candidates[0].size_bytes, 1_000);
    assert_eq!(
        candidates[0].origin,
        CandidateOrigin::Radarr {
            instance: "main".to_owned()
        }
    );
}

#[test]
fn a_500_yields_a_transient_error() {
    let error = source(ArrKind::Sonarr, Vec::new())
        .judge_reply(500, "500 Internal Server Error")
        .expect_err("a server error");
    assert!(error.is_transient());
    assert_eq!(
        error,
        CandidateError::Transport(
            "sonarr:main returned status 500 Internal Server Error".to_owned()
        )
    );
}

#[test]
fn a_401_yields_a_non_transient_error() {
    let error = source(ArrKind::Sonarr, Vec::new())
        .judge_reply(401, "401 Unauthorized")
        .expect_err("rejected");
    assert!(!error.is_transient());
    assert_eq!(
        error,
        CandidateError::Protocol("sonarr:main rejected the configured API key".to_owned())
    );
}

#[test]
fn any_other_status_is_a_protocol_error() {
    let arr = source(ArrKind::Radarr, Vec::new());
    assert_eq!(arr.judge_reply(200, "200 OK"), Ok(()));
    assert_eq!(
        arr.judge_reply(404, "404 Not Found"),
        Err(CandidateError::Protocol(
            "radarr:main returned status 404 Not Found".to_owned()
        ))
    );
}

#[test]
fn path_mapping_rewrites_a_container_path_to_a_host_path() {
    let radarr = source(
        ArrKind::Radarr,
        vec![mapping("/movies", "/srv/media/movies")],
    );
    assert_eq!(
        radarr.map_path("/movies/Movie/movie.mkv"),
        "/srv/media/movies/Movie/movie.mkv"
    );
    // A name that merely begins alike is another directory.
    assert_eq!(radarr.map_path("/movies2/movie.mkv"), "/movies2/movie.mkv");
}

#[test]
fn the_first_mapping_that_fits_is_used() {
    let radarr = source(
        ArrKind::Radarr,
        vec![mapping("/movies/4k", "/srv/4k"), mapping("/movies", "/srv/hd/")],
    );
    assert_eq!(radarr.map_path("/movies/4k/a.mkv"), "/srv/4k/a.mkv");
    assert_eq!(radarr.map_path("/movies/a.mkv"), "/srv/hd/a.mkv");
}

#[test]
fn a_mapped_path_that_does_not_exist_is_dropped_not_returned() {
    let radarr = source(ArrKind::Radarr, vec![mapping("/movies", "/srv/movies")]);
    let files = vec![ArrFile {
        season: None,
        path: "/movies/movie.mkv".to_owned(),
        size: 1_000,
    }];
    let looked = radarr.files_to_look_for(&files, None);
    assert!(radarr.candidates(&looked, &vec![None]).is_empty());
    assert!(radarr.candidates(&looked, &vec![Some(999)]).is_empty());
}

#[test]
fn requests_are_addressed_below_the_base_url() {
    let sonarr = source(ArrKind::Sonarr, Vec::new());
    assert_eq!(
        sonarr.parse_url(&query()),
        Ok("http://arr.test/api/v3/parse?title=Show.S01.1080p.WEB-DL".to_owned())
    );
    assert_eq!(
        sonarr.files_url(7),
        Ok("http://arr.test/api/v3/episodefile?seriesId=7".to_owned())
    );
    assert_eq!(
        source(ArrKind::Radarr, Vec::new()).files_url(3),
        Ok("http://arr.test/api/v3/moviefile?movieId=3".to_owned())
    );
}

#[test]
fn a_release_name_is_escaped_in_the_request() {
    let mut asked = query();
    asked.torrent_name = "Tom & Jerry".to_owned();
    assert_eq!(
        source(ArrKind::Sonarr, Vec::new()).parse_url(&asked),
        Ok("http://arr.test/api/v3/parse?title=Tom+%26+Jerry".to_owned())
    );
}

#[test]
fn a_base_that_is_no_url_is_a_protocol_error() {
    let arr = ArrCandidateSource::new(ArrKind::Sonarr, "main", "no url", Vec::new());
    assert_eq!(
        arr.files_url(1),
        Err(CandidateError::Protocol(
            "cannot build request URL: relative URL without a base".to_owned()
        ))
    );
}

fn reply<T>(status: u16, shown: &str, body: Result<T, String>) -> Answer<T> {
    Ok(Reply {
        status,
        shown: shown.to_owned(),
        body,
    })
}

#[test]
fn an_unmatched_release_yields_an_empty_vec_not_an_error() {
    let (search, action) = ArrSearch::start(source(ArrKind::Sonarr, Vec::new()), &query());
    assert!(matches!(
        action,
        Action::Parse(url) if url == "http://arr.test/api/v3/parse?title=Show.S01.1080p.WEB-DL"
    ));
    let unknown = Release {
        series: None,
        movie: Some(3),
        season: None,
    };
    let (_, action) = search.next(Event::Parsed(reply(200, "200 OK", Ok(unknown))));
    assert_eq!(action, Action::Finish(Ok(Vec::new())));
}

#[test]
fn a_search_goes_from_the_release_to_the_files_on_disk() {
    let sonarr = source(ArrKind::Sonarr, vec![mapping("/tv", "/srv/media/tv")]);
    let (search, _) = ArrSearch::start(sonarr, &query());
    let release = Release {
        series: Some(7),
        movie: None,
        season: Some(1),
    };
    let (search, action) = search.next(Event::Parsed(reply(200, "200 OK", Ok(release))));
    assert_eq!(
        action,
        Action::List("http://arr.test/api/v3/episodefile?seriesId=7".to_owned())
    );
    let (search, action) = search.next(Event::Listed(reply(
        200,
        "200 OK",
        Ok(vec![
            episode(1, "/tv/e01.mkv", 10),
            episode(2, "/tv/s02e01.mkv", 10),
            episode(1, "/tv/e02.mkv", 20),
        ]),
    )));
    assert_eq!(
        action,
        Action::Look(vec![
            "/srv/media/tv/e01.mkv".to_owned(),
            "/srv/media/tv/e02.mkv".to_owned()
        ])
    );
    let (_, action) = search.next(Event::Found(vec![Some(10), Some(19)]));
    assert_eq!(
        action,
        Action::Finish(Ok(vec![Candidate {
            path: "/srv/media/tv/e01.mkv".to_owned(),
            size_bytes: 10,
            origin: CandidateOrigin::Sonarr {
                instance: "main".to_owned()
            },
        }]))
    );
}

#[test]
fn a_reply_that_cannot_be_used_ends_the_search() {
    let begun = || ArrSearch::start(source(ArrKind::Radarr, Vec::new()), &query()).0;
    let (_, action) = begun().next(Event::Parsed(Err("connection refused".to_owned())));
    assert_eq!(
        action,
        Action::Finish(Err(CandidateError::Transport(
            "connection refused".to_owned()
        )))
    );
    let (_, action) = begun().next(Event::Parsed(reply(200, "200 OK", Err("odd".to_owned()))));
    assert_eq!(
        action,
        Action::Finish(Err(CandidateError::Protocol(
            "cannot parse response: odd".to_owned()
        )))
    );
    let (_, action) = begun().next(Event::Parsed(reply(
        500,
        "500 Internal Server Error",
        Err(String::new()),
    )));
    assert!(matches!(
        action,
        Action::Finish(Err(CandidateError::Transport(_)))
    ));
    let nowhere = ArrCandidateSource::new(ArrKind::Sonarr, "main", "no url", Vec::new());
    let (_, action) = ArrSearch::start(nowhere, &query());
    assert!(matches!(
        action,
        Action::Finish(Err(CandidateError::Protocol(_)))
    ));
}

#[test]
fn what_stands_behind_a_mapping_is_kept_as_it_stood() {
    let reported = [
        "/tv//a//b",
        "/tv/a/./b",
        "/tv/a/",
        "/tv/a/.",
        "/tv",
        "/tv/",
        "//tv///x.mkv",
        "/other/x",
        "tv/x//y",
        "./tv/x/../y",
        "/",
        "",
        ".",
        "./.",
    ];
    let prefixes = ["/tv", "/tv/", "/", "tv", "./tv", "", "."];
    let targets = ["/srv", "/srv/", "srv", ""];
    for from in prefixes {
        for to in targets {
            let arr = source(ArrKind::Sonarr, vec![mapping(from, to)]);
            for path in reported {
                let path = std::path::Path::new(path);
                let expected = match path.strip_prefix(from) {
                    Ok(rest) => std::path::Path::new(to).join(rest),
                    Err(_) => path.to_path_buf(),
                };
                assert_eq!(
                    arr.map_path(path.to_str().expect("text")),
                    expected.to_str().expect("text"),
                    "{path:?} from {from:?} to {to:?}"
                );
            }
        }
    }
    let arr = source(ArrKind::Sonarr, vec![mapping("/tv", "/srv")]);
    assert_eq!(arr.map_path("/tv//a//b"), "/srv/a//b");
}

// --- Walking the library ---

fn entry(path: &str, kind: EntryKind) -> Entry {
    Entry {
        path: path.to_owned(),
        kind,
    }
}

#[test]
fn the_walk_finds_files_of_the_wanted_sizes_in_the_order_of_paths() {
    let mut walk = Walk::start("/media", query()).expect("something is looked for");
    let top = walk.next_directory().expect("the root");
    assert_eq!((top.path.as_str(), top.depth), ("/media", 0));
    walk.listed(
        &top,
        vec![
            entry("/media/z.mkv", EntryKind::File { length: 10 }),
            entry("/media/link", EntryKind::Symlink),
            entry("/media/b", EntryKind::Directory),
            entry("/media/other.mkv", EntryKind::File { length: 11 }),
        ],
    );
    let below = walk.next_directory().expect("one more");
    assert_eq!((below.path.as_str(), below.depth), ("/media/b", 1));
    walk.listed(
        &below,
        vec![entry("/media/b/a.mkv", EntryKind::File { length: 10 })],
    );
    assert!(walk.next_directory().is_none());

    let found = walk.finish();
    let paths: Vec<&str> = found.iter().map(|c| c.path.as_str()).collect();
    assert_eq!(paths, vec!["/media/b/a.mkv", "/media/z.mkv"]);
    assert_eq!(
        found[0].origin,
        CandidateOrigin::Filesystem {
            root: "/media".to_owned()
        }
    );
}

#[test]
fn finds_only_files_of_a_wanted_size() {
    let wanted = CandidateQuery {
        torrent_name: "Show S01".to_owned(),
        files: vec![torrent_file("Show/e01.mkv", 10)],
    };
    let mut walk = Walk::start("/library", wanted).expect("something is looked for");
    let top = walk.next_directory().expect("the root");
    walk.listed(
        &top,
        vec![
            entry("/library/Show/Season 01/e01.mkv", EntryKind::File { length: 10 }),
            entry("/library/Show/Season 01/e02.mkv", EntryKind::File { length: 5 }),
        ],
    );
    let candidates = walk.finish();

    assert_eq!(candidates.len(), 1);
    assert_eq!(candidates[0].size_bytes, 10);
    assert!(candidates[0].path.ends_with("e01.mkv"));
}

#[test]
fn the_walk_does_not_go_deeper_than_it_may() {
    let mut walk = Walk::start("/m", query()).expect("something is looked for");
    let mut depth = 0;
    while let Some(directory) = walk.next_directory() {
        depth = directory.depth;
        walk.listed(&directory, vec![entry("/m/d", EntryKind::Directory)]);
    }
    assert_eq!(depth, MAX_DEPTH);
}

#[test]
fn nothing_wanted_is_nothing_walked() {
    let nothing = CandidateQuery {
        torrent_name: "x".to_owned(),
        files: Vec::new(),
    };
    assert!(Walk::start("/media", nothing).is_none());
}

#[test]
fn an_unreadable_directory_is_named() {
    assert_eq!(
        cannot_read("/media/x", "permission denied").message(),
        "failed to read the media library: cannot read /media/x: permission denied"
    );
    assert_eq!(
        FilesystemCandidateSource::new("/media").label(),
        "filesystem:/media"
    );
}

#[test]
fn the_fake_source_always_answers_the_same() {
    let fake = FakeCandidateSource::new("fake", vec![candidate("/media/a.mkv", 1)]);
    assert_eq!(fake.label(), "fake");
    assert_eq!(
        fake.find_candidates(&query()),
        Ok(vec![candidate("/media/a.mkv", 1)])
    );
}
