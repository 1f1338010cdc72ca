//! Wiring: which adapter implements which port, for one configuration.
//!
//! What a configuration produces is decided here, all at once, as plain
//! values. Whoever builds the adapters builds exactly these.

use vstd::prelude::*;
use vstd::string::*;

use crate::clock::{Duration, Timestamp};
use crate::config::problems::messages_of;
use crate::config::settings::{ArrConfig, PathMappingConfig, TrackerConfig};
use crate::config::{
    Build, Config, ConfigError, DownloadClientKind, Secret, Severity, TrackerKind,
};
use crate::library::adapters::arr::{ArrCandidateSource, PathMapping};
use crate::repair::policy::SafetyPolicy;
use crate::repair::worker::WorkerConfig;
use crate::torrent::{InfoHash, SafeRelativePath, TorrentFile, TorrentMetadata};
use crate::tracker::{HitAndRun, TrackerId, TrackerTorrentId};

verus! {

/// Where repairs are staged.
#[derive(Debug, PartialEq, Eq)]
pub enum StagingChoice {
    /// A fresh install, not a misconfiguration: any repair that gets there is
    /// parked for review instead of guessing a path.
    Unconfigured,
    Local { root: String, min_free_bytes: u64 },
}

/// Which decoder reads the torrents.
#[derive(Clone, Copy, Debug, PartialEq, Eq, Structural)]
pub enum InspectorChoice {
    Bencode,
    Fake,
}

/// Which download client seeds.
#[derive(Clone, Copy, Debug, PartialEq, Eq, Structural)]
pub enum ClientChoice {
    Unconfigured,
    QBittorrent,
    Fake,
}

/// Where candidates are looked for.
#[derive(Debug)]
pub enum SourceChoice {
    Arr(ArrCandidateSource),
    Filesystem { root: String },
}

/// Everything one configuration produces. Replaced wholesale on a reload, and
/// never changed.
pub struct Generation {
    pub staging: StagingChoice,
    pub inspector: InspectorChoice,
    pub client: ClientChoice,
    pub client_is_stub: bool,
    pub sources: Vec<SourceChoice>,
    /// The trackers, and whether each is a stub.
    pub trackers: Vec<(TrackerId, bool)>,
    pub worker: WorkerConfig,
    pub policy: SafetyPolicy,
    /// Category to file repaired torrents under in the download client.
    pub category: Option<String>,
    pub webhook_url: Option<String>,
    pub tracker_unreachable_threshold: Duration,
    /// How long the worker may have gone quiet before it counts as unready.
    /// Derived from the poll interval with margin rather than fixed, so a
    /// slower configured interval does not immediately look unhealthy.
    pub health_threshold: Duration,
    pub auth_token: Option<Secret>,
    pub config_summary: String,
    pub metrics_enabled: bool,
    /// What is left to configure.
    pub setup_warnings: Vec<String>,
}

/// Every tracker is a fake one.
pub open spec fn all_fake(trackers: Seq<TrackerConfig>) -> bool {
    forall|i: int| 0 <= i < trackers.len() ==> (#[trigger] trackers[i]).kind is Fake
}

/// The decoder that fits the trackers: the fake one serves its torrents in
/// another format, so it needs the matching inspector.
pub open spec fn fitting_inspector(trackers: Seq<TrackerConfig>, build: Build) -> InspectorChoice {
    if build.fakes && trackers.len() > 0 && all_fake(trackers) {
        InspectorChoice::Fake
    } else {
        InspectorChoice::Bencode
    }
}

pub fn choose_inspector(trackers: &Vec<TrackerConfig>, build: Build) -> (r: InspectorChoice)
    ensures
        r == fitting_inspector(trackers@, build),
{
    if !build.fakes || trackers.len() == 0 {
        return InspectorChoice::Bencode;
    }
    let mut i: usize = 0;
    while i < trackers.len()
        invariant
            i <= trackers@.len(),
            forall|k: int| 0 <= k < i ==> (#[trigger] trackers@[k]).kind is Fake,
        decreases trackers@.len() - i,
    {
        if trackers[i].kind != TrackerKind::Fake {
            return InspectorChoice::Bencode;
        }
        i += 1;
    }
    InspectorChoice::Fake
}

pub fn choose_staging(config: &Config) -> (r: StagingChoice)
    ensures
        if config.staging.root@.len() == 0 {
            r is Unconfigured
        } else {
            r matches StagingChoice::Local { root, min_free_bytes } && root@
                == config.staging.root@ && min_free_bytes == config.staging.min_free_bytes
        },
{
    if config.staging.root.as_str().is_empty() {
        StagingChoice::Unconfigured
    } else {
        StagingChoice::Local {
            root: config.staging.root.clone(),
            min_free_bytes: config.staging.min_free_bytes,
        }
    }
}

/// The client that the configuration asks for.
pub open spec fn wanted_client(config: Config) -> ClientChoice {
    match config.download_client {
        None => ClientChoice::Unconfigured,
        Some(client) => match client.kind {
            DownloadClientKind::QBittorrent => ClientChoice::QBittorrent,
            DownloadClientKind::Fake => ClientChoice::Fake,
        },
    }
}

pub fn choose_client(config: &Config) -> (r: ClientChoice)
    ensures
        r == wanted_client(*config),
{
    match &config.download_client {
        None => ClientChoice::Unconfigured,
        Some(client) => match client.kind {
            DownloadClientKind::QBittorrent => ClientChoice::QBittorrent,
            DownloadClientKind::Fake => ClientChoice::Fake,
        },
    }
}

/// The source is the *arr instance.
pub open spec fn stands_for_arr(source: SourceChoice, instance: ArrConfig) -> bool {
    source matches SourceChoice::Arr(arr) && {
        &&& arr.kind == instance.kind
        &&& arr.instance@ == instance.name@
        &&& arr.label@ == instance.kind.name() + ":"@ + instance.name@
        &&& arr.base_url@ == instance.base_url@
        &&& same_mappings(arr.path_mappings@, instance.path_mappings@)
    }
}

/// The mappings say the same.
pub open spec fn same_mappings(
    mappings: Seq<PathMapping>,
    configured: Seq<PathMappingConfig>,
) -> bool {
    &&& mappings.len() == configured.len()
    &&& forall|i: int|
        0 <= i < mappings.len() ==> (#[trigger] mappings[i]).from@ == configured[i].from@
            && mappings[i].to@ == configured[i].to@
}

/// The source is the library root.
pub open spec fn stands_for_root(source: SourceChoice, path: Seq<char>) -> bool {
    source matches SourceChoice::Filesystem { root } && root@ == path
}

/// The sources are the *arr instances and then the library roots, each in the
/// order of the configuration.
pub open spec fn sources_of(config: Config, sources: Seq<SourceChoice>) -> bool {
    &&& sources.len() == config.arr@.len() + config.library.roots@.len()
    &&& forall|i: int|
        0 <= i < config.arr@.len() ==> stands_for_arr(sources[i], #[trigger] config.arr@[i])
    &&& forall|i: int|
        0 <= i < config.library.roots@.len() ==> stands_for_root(
            sources[config.arr@.len() + i],
            (#[trigger] config.library.roots@[i])@,
        )
}

fn copy_mappings(configured: &Vec<PathMappingConfig>) -> (r: Vec<PathMapping>)
    ensures
        same_mappings(r@, configured@),
{
    let mut out: Vec<PathMapping> = Vec::new();
    let mut i: usize = 0;
    while i < configured.len()
        invariant
            i <= configured@.len(),
            out@.len() == i,
            forall|k: int|
                0 <= k < i ==> (#[trigger] out@[k]).from@ == configured@[k].from@ && out@[k].to@
                    == configured@[k].to@,
        decreases configured@.len() - i,
    {
        out.push(
            PathMapping { from: configured[i].from.clone(), to: configured[i].to.clone() },
        );
        i += 1;
    }
    out
}

pub fn candidate_sources(config: &Config) -> (r: Vec<SourceChoice>)
    ensures
        sources_of(*config, r@),
{
    let mut out: Vec<SourceChoice> = Vec::new();
    let mut i: usize = 0;
    while i < config.arr.len()
        invariant
            i <= config.arr@.len(),
            out@.len() == i,
            forall|k: int|
                0 <= k < i ==> stands_for_arr(out@[k], #[trigger] config.arr@[k]),
        decreases config.arr@.len() - i,
    {
        let instance = &config.arr[i];
        let source = ArrCandidateSource::new(
            instance.kind,
            instance.name.as_str(),
            instance.base_url.as_str(),
            copy_mappings(&instance.path_mappings),
        );
        out.push(SourceChoice::Arr(source));
        i += 1;
    }
    let ghost arrs = out@;
    let mut j: usize = 0;
    while j < config.library.roots.len()
        invariant
            j <= config.library.roots@.len(),
            arrs.len() == config.arr@.len(),
            out@.len() == arrs.len() + j,
            forall|k: int| 0 <= k < arrs.len() ==> #[trigger] out@[k] == arrs[k],
            forall|k: int|
                0 <= k < config.arr@.len() ==> stands_for_arr(arrs[k], #[trigger] config.arr@[k]),
            forall|k: int|
                0 <= k < j ==> stands_for_root(
                    out@[arrs.len() + k],
                    (#[trigger] config.library.roots@[k])@,
                ),
        decreases config.library.roots@.len() - j,
    {
        out.push(SourceChoice::Filesystem { root: config.library.roots[j].clone() });
        assert(stands_for_root(out@[arrs.len() + j], config.library.roots@[j as int]@));
        j += 1;
    }
    assert forall|k: int| 0 <= k < config.arr@.len() implies stands_for_arr(
        out@[k],
        #[trigger] config.arr@[k],
    ) by {
        assert(out@[k] == arrs[k]);
    }
    out
}

/// The trackers by id, and whether each is a stub.
pub open spec fn tracker_flags(trackers: Seq<TrackerConfig>, flags: Seq<(TrackerId, bool)>) -> bool {
    &&& flags.len() == trackers.len()
    &&& forall|i: int|
        0 <= i < flags.len() ==> (#[trigger] flags[i]).0@ == trackers[i].id@ && flags[i].1 == (
        trackers[i].kind is Fake)
}

pub fn flag_stubs(trackers: &Vec<TrackerConfig>) -> (r: Vec<(TrackerId, bool)>)
    ensures
        tracker_flags(trackers@, r@),
{
    let mut out: Vec<(TrackerId, bool)> = Vec::new();
    let mut i: usize = 0;
    while i < trackers.len()
        invariant
            i <= trackers@.len(),
            tracker_flags(trackers@.take(i as int), out@),
        decreases trackers@.len() - i,
    {
        let stub: bool = trackers[i].kind == TrackerKind::Fake;
        out.push((TrackerId::new(trackers[i].id.as_str()), stub));
        assert(tracker_flags(trackers@.take(i + 1), out@));
        i += 1;
    }
    assert(trackers@.take(i as int) =~= trackers@);
    out
}

/// How long the worker may be quiet: three polls and half a minute.
pub open spec fn quiet_seconds(config: Config) -> int {
    config.worker.poll_interval_seconds * 3 + 30
}

/// The generation is the one that the configuration asks for.
pub open spec fn generated(
    config: Config,
    build: Build,
    bind: Result<(), String>,
    r: Generation,
) -> bool {
    &&& if config.staging.root@.len() == 0 {
        r.staging is Unconfigured
    } else {
        r.staging matches StagingChoice::Local { root, min_free_bytes } && root@
            == config.staging.root@ && min_free_bytes == config.staging.min_free_bytes
    }
    &&& r.inspector == fitting_inspector(config.trackers@, build)
    &&& r.client == wanted_client(config)
    &&& r.client_is_stub == (r.client is Fake)
    &&& sources_of(config, r.sources@)
    &&& tracker_flags(config.trackers@, r.trackers@)
    &&& r.worker.owner@ == config.worker.owner@
    &&& r.worker.lease@ == crate::clock::secs(config.worker.lease_seconds as int)
    &&& r.worker.batch_size == config.worker.batch_size
    &&& r.worker.poll_interval@ == crate::clock::secs(config.worker.poll_interval_seconds as int)
    &&& r.worker.discovery_interval@ == crate::clock::secs(
        config.worker.discovery_interval_seconds as int,
    )
    &&& crate::config::settings::same_policy(config.policy, r.policy)
    &&& r.category == match config.download_client {
        Some(client) => client.category,
        None => None,
    }
    &&& r.webhook_url == config.notifications.webhook_url
    &&& r.tracker_unreachable_threshold@ == crate::clock::secs(
        config.notifications.tracker_unreachable_after_seconds as int,
    )
    &&& r.health_threshold@ == crate::clock::secs(quiet_seconds(config))
    &&& match r.auth_token {
        Some(token) => config.server.auth_token.hidden().len() > 0 && token
            == config.server.auth_token,
        None => config.server.auth_token.hidden().len() == 0,
    }
    &&& r.config_summary@ == crate::config::summary::with_ends(
        crate::config::summary::summary_lines(config),
    )
    &&& r.metrics_enabled == config.metrics.enabled
    &&& crate::text::texts(r.setup_warnings@) == crate::config::problems::messages(
        config.findings(build, bind),
        Severity::Warning,
    )
}

/// What one generation is made of. A configuration with errors makes none.
pub fn plan(config: &Config, build: Build, bind: &Result<(), String>) -> (r: Result<
    Generation,
    ConfigError,
>)
    requires
        quiet_seconds(*config) <= u64::MAX,
    ensures
        match r {
            Ok(generation) => {
                &&& crate::config::problems::judged(config.findings(build, *bind), Ok(()))
                &&& generated(*config, build, *bind, generation)
            },
            Err(error) => crate::config::problems::judged(
                config.findings(build, *bind),
                Err(error),
            ),
        },
{
    match config.validate(build, bind) {
        Ok(()) => {},
        Err(error) => return Err(error),
    }
    let client = choose_client(config);
    let category = match &config.download_client {
        Some(client) => client.category.clone(),
        None => None,
    };
    let auth_token = if config.server.auth_token.is_empty() {
        None
    } else {
        Some(config.server.auth_token.clone())
    };
    let problems = config.problems(build, bind);
    let quiet: u64 = config.worker.poll_interval_seconds * 3 + 30;
    Ok(
        Generation {
            staging: choose_staging(config),
            inspector: choose_inspector(&config.trackers, build),
            client,
            client_is_stub: client == ClientChoice::Fake,
            sources: candidate_sources(config),
            trackers: flag_stubs(&config.trackers),
            worker: config.worker.to_worker_config(),
            policy: config.policy.to_policy(),
            category,
            webhook_url: config.notifications.webhook_url.clone(),
            tracker_unreachable_threshold: Duration::from_secs(
                config.notifications.tracker_unreachable_after_seconds,
            ),
            health_threshold: Duration::from_secs(quiet),
            auth_token,
            config_summary: config.redacted_summary(),
            metrics_enabled: config.metrics.enabled,
            setup_warnings: messages_of(&problems, Severity::Warning),
        },
    )
}

// ---------------------------------------------------------------------------
// The demo
// ---------------------------------------------------------------------------

/// A torrent of the fake tracker, with its warning.
#[derive(Debug)]
pub struct DemoTorrent {
    pub hit_and_run: HitAndRun,
    pub metadata: TorrentMetadata,
}

/// The torrent has that number, that name and those files, and the warning is
/// about it.
pub open spec fn is_demo(
    demo: DemoTorrent,
    tracker: TrackerId,
    now: Timestamp,
    index: u8,
    name: Seq<char>,
    files: Seq<(Seq<char>, u64)>,
) -> bool {
    let metadata = demo.metadata;
    let warning = demo.hit_and_run;
    &&& metadata.info_hash@ == Seq::new(20, |i: int| index)
    &&& metadata.name@ == name
    &&& metadata.piece_length == 1_048_576
    &&& metadata.pieces@.len() == 0
    &&& metadata.files@.len() == files.len()
    &&& forall|i: int|
        0 <= i < files.len() ==> (#[trigger] metadata.files@[i]).path@ == name + "/"@ + files[i].0
            && metadata.files@[i].length == files[i].1
    &&& warning.tracker == tracker
    &&& warning.torrent_id@ == "demo-"@ + crate::text::decimal(index as nat)
    &&& warning.torrent_name@ == name
    &&& warning.info_hash == Some(metadata.info_hash)
    &&& warning.size_bytes == crate::torrent::domain::total_of(metadata.files@)
    &&& warning.deadline is None
    &&& warning.observed_at == now
}

fn demo_file(dir: &SafeRelativePath, name: &str, length: u64) -> (r: TorrentFile)
    requires
        crate::torrent::path::safe_path(name@),
    ensures
        r.path@ == dir@ + "/"@ + name@,
        r.length == length,
{
    let path = SafeRelativePath::parse(name).unwrap().under(dir);
    proof {
        reveal_strlit("/");
        assert(seq!['/'] =~= "/"@);
    }
    TorrentFile { path, length }
}

fn demo(
    tracker: &TrackerId,
    now: Timestamp,
    index: u8,
    name: SafeRelativePath,
    files: Vec<TorrentFile>,
) -> (r: DemoTorrent)
    requires
        crate::torrent::domain::total_of(files@) <= u64::MAX,
    ensures
        r.metadata.files == files,
        forall|wanted: Seq<(Seq<char>, u64)>|
            wanted.len() == files@.len() && (forall|i: int|
                0 <= i < wanted.len() ==> (#[trigger] files@[i]).path@ == name@ + "/"@
                    + wanted[i].0 && files@[i].length == wanted[i].1) ==> #[trigger] is_demo(
                r,
                *tracker,
                now,
                index,
                name@,
                wanted,
            ),
{
    let metadata = TorrentMetadata {
        info_hash: InfoHash::from_bytes([index;20]),
        name,
        piece_length: 1_048_576,
        files,
        pieces: Vec::new(),
    };
    assert(metadata.info_hash@ =~= Seq::new(20, |i: int| index));
    let mut id = "demo-".to_owned();
    id.append(crate::text::decimal_of(index as u128).as_str());
    DemoTorrent {
        hit_and_run: HitAndRun {
            tracker: tracker.clone(),
            torrent_id: TrackerTorrentId::new(id.as_str()),
            torrent_name: metadata.name.as_str().to_owned(),
            info_hash: Some(metadata.info_hash),
            size_bytes: metadata.total_length(),
            deadline: None,
            observed_at: now,
        },
        metadata,
    }
}

/// Two warnings for the fake tracker: enough to see discovery, the state
/// machine, and the review queue working. Their content is not in anybody's
/// library, so both park for review, which is the correct, visible outcome
/// rather than a pretend success.
pub fn demo_torrents(tracker: &TrackerId, now: Timestamp) -> (r: Vec<DemoTorrent>)
    ensures
        r@.len() == 2,
        is_demo(
            r@[0],
            *tracker,
            now,
            1,
            "Demo.Movie.2024.1080p"@,
            seq![("movie.mkv"@, 1_048_576u64)],
        ),
        is_demo(
            r@[1],
            *tracker,
            now,
            2,
            "Demo.Show.S01.1080p"@,
            seq![("S01E01.mkv"@, 2_097_152u64), ("S01E02.mkv"@, 3_145_728u64)],
        ),
{
    proof {
        reveal_strlit("Demo.Movie.2024.1080p");
        reveal_strlit("movie.mkv");
        reveal_strlit("Demo.Show.S01.1080p");
        reveal_strlit("S01E01.mkv");
        reveal_strlit("S01E02.mkv");
        reveal_with_fuel(crate::torrent::path::plain_to, 22);
        crate::torrent::path::plain_names_are_safe("Demo.Movie.2024.1080p"@);
        crate::torrent::path::plain_names_are_safe("movie.mkv"@);
        crate::torrent::path::plain_names_are_safe("Demo.Show.S01.1080p"@);
        crate::torrent::path::plain_names_are_safe("S01E01.mkv"@);
        crate::torrent::path::plain_names_are_safe("S01E02.mkv"@);
        reveal_with_fuel(crate::torrent::domain::total_of, 3);
    }
    let movie = SafeRelativePath::parse("Demo.Movie.2024.1080p").unwrap();
    let mut movie_files: Vec<TorrentFile> = Vec::new();
    movie_files.push(demo_file(&movie, "movie.mkv", 1_048_576));
    let show = SafeRelativePath::parse("Demo.Show.S01.1080p").unwrap();
    let mut show_files: Vec<TorrentFile> = Vec::new();
    show_files.push(demo_file(&show, "S01E01.mkv", 2_097_152));
    show_files.push(demo_file(&show, "S01E02.mkv", 3_145_728));
    let mut out: Vec<DemoTorrent> = Vec::new();
    out.push(demo(tracker, now, 1, movie, movie_files));
    out.push(demo(tracker, now, 2, show, show_files));
    out
}

/// A generation is wired as it is configured: the client of its kind, or none;
/// the fake decoder only where every tracker is fake and the build has fakes; the
/// instances before the library roots; a tracker as a stub exactly where it is
/// fake; a token only where one is set; and a worker counts as quiet after three
/// polls and half a minute.
pub proof fn a_generation_is_wired_as_configured(
    config: Config,
    build: Build,
    bind: Result<(), String>,
    r: Generation,
)
    requires
        generated(config, build, bind, r),
    ensures
        r.client is Unconfigured <==> config.download_client is None,
        r.client is QBittorrent <==> (config.download_client matches Some(client)
            && client.kind is QBittorrent),
        r.client is Fake <==> (config.download_client matches Some(client) && client.kind is Fake),
        r.client_is_stub <==> (config.download_client matches Some(client) && client.kind is Fake),
        r.category is Some ==> config.download_client is Some && r.category
            == config.download_client->0.category,
        r.inspector is Fake <==> build.fakes && config.trackers@.len() > 0 && forall|i: int|
            0 <= i < config.trackers@.len() ==> (#[trigger] config.trackers@[i]).kind is Fake,
        r.staging is Unconfigured <==> config.staging.root@.len() == 0,
        r.staging matches StagingChoice::Local { root, min_free_bytes } ==> root@
            == config.staging.root@ && min_free_bytes == config.staging.min_free_bytes,
        r.sources@.len() == config.arr@.len() + config.library.roots@.len(),
        forall|i: int|
            #![trigger r.sources@[i]]
            0 <= i < r.sources@.len() ==> if i < config.arr@.len() {
                r.sources@[i] matches SourceChoice::Arr(source) && source.kind
                    == config.arr@[i].kind && source.base_url@ == config.arr@[i].base_url@
                    && source.instance@ == config.arr@[i].name@ && source.path_mappings@.len()
                    == config.arr@[i].path_mappings@.len()
            } else {
                r.sources@[i] matches SourceChoice::Filesystem { root } && root@
                    == config.library.roots@[i - config.arr@.len()]@
            },
        r.trackers@.len() == config.trackers@.len(),
        forall|i: int|
            0 <= i < r.trackers@.len() ==> (#[trigger] r.trackers@[i]).0@ == config.trackers@[i].id@
                && (r.trackers@[i].1 <==> config.trackers@[i].kind is Fake),
        r.health_threshold@ == (3 * config.worker.poll_interval_seconds + 30) * 1_000_000_000,
        r.worker.poll_interval@ == config.worker.poll_interval_seconds * 1_000_000_000,
        r.worker.lease@ == config.worker.lease_seconds * 1_000_000_000,
        r.auth_token is Some <==> config.server.auth_token.hidden().len() > 0,
        r.auth_token matches Some(token) ==> token == config.server.auth_token,
        r.metrics_enabled == config.metrics.enabled,
        r.tracker_unreachable_threshold@
            == config.notifications.tracker_unreachable_after_seconds * 1_000_000_000,
{
    assert forall|i: int| #![trigger r.sources@[i]]
        0 <= i < r.sources@.len() implies if i < config.arr@.len() {
        r.sources@[i] matches SourceChoice::Arr(source) && source.kind
            == config.arr@[i].kind && source.base_url@ == config.arr@[i].base_url@
            && source.instance@ == config.arr@[i].name@ && source.path_mappings@.len()
            == config.arr@[i].path_mappings@.len()
    } else {
        r.sources@[i] matches SourceChoice::Filesystem { root } && root@
            == config.library.roots@[i - config.arr@.len()]@
    } by {
        if i < config.arr@.len() {
            assert(stands_for_arr(r.sources@[i], config.arr@[i]));
        } else {
            let k = i - config.arr@.len();
            assert(stands_for_root(
                r.sources@[config.arr@.len() + k],
                config.library.roots@[k]@,
            ));
        }
    }
}

} // verus!
