use seedmedic::bootstrap::{
    demo_torrents, plan, ClientChoice, InspectorChoice, SourceChoice, StagingChoice,
};
use seedmedic::check::{check_config, check_connections, probe_all};
use seedmedic::clock::{Duration, TestClock};
use seedmedic::config::problems::{
    directory_is_writable, nearest_existing_ancestor, repeated_name_problems,
};
use seedmedic::config::secret::{resolve_secrets, secret_lookups, shouty, SecretFound};
use seedmedic::config::document::{must_redact, Setting};
use seedmedic::config::load::FileFound;
use seedmedic::config::keys::{route, segments, Segment};
use seedmedic::config::write::{probe_writable, SaveAction, SaveEvent, Stamp};
use seedmedic::config::{
    ArrConfig, ArrKind, Build, Config, ConfigDocument, ConfigError, DocumentError,
    DownloadClientConfig, DownloadClientKind, OnDisk, PathMappingConfig, Problem, SaveOutcome,
    Secret, SecretSource, Severity, TokenPlacement, TrackerConfig, TrackerKind,
};
use seedmedic::connectivity::{test_tracker, ProbeResult};
use seedmedic::library::MatchConfidence;
use seedmedic::paths::ancestors;
use seedmedic::repair::domain::{JobId, RepairJob};
use seedmedic::repair::policy::AutoResume;
use seedmedic::repair::ports::StoreError;
use seedmedic::repair::store::StoredJob;
use seedmedic::runtime::{check_refusals, may_reload, Applied, ReloadError};
use seedmedic::torrent::SafeRelativePath;
use seedmedic::tracker::{HitAndRun, TrackerError, TrackerId, TrackerTorrentId};

const BUILD: Build = Build {
    fakes: true,
    metrics: true,
};

fn tracker(id: &str, kind: TrackerKind) -> TrackerConfig {
    TrackerConfig {
        id: id.to_owned(),
        kind,
        base_url: "http://example.test/".to_owned(),
        api_key: Secret::default(),
        api_key_file: None,
        token_placement: TokenPlacement::default(),
    }
}

fn arr(kind: ArrKind, name: &str) -> ArrConfig {
    ArrConfig {
        kind,
        name: name.to_owned(),
        base_url: "http://arr.test/".to_owned(),
        api_key: Secret::default(),
        api_key_file: None,
        path_mappings: Vec::new(),
    }
}

/// A staging root and one fake tracker.
fn minimal() -> Config {
    let mut config = Config::default();
    config.staging.root = "/srv/seedmedic/staging".to_owned();
    config.trackers.push(tracker("example", TrackerKind::Fake));
    config
}

fn problems(config: &Config) -> Vec<Problem> {
    config.problems(BUILD, &Ok(()))
}

fn validate(config: &Config) -> Result<(), ConfigError> {
    config.validate(BUILD, &Ok(()))
}

fn has(config: &Config, severity: Severity, key: &str) -> bool {
    problems(config)
        .iter()
        .any(|problem| problem.severity == severity && problem.key.as_deref() == Some(key))
}

fn has_error(config: &Config, key: &str) -> bool {
    has(config, Severity::Error, key)
}

fn has_warning(config: &Config, key: &str) -> bool {
    has(config, Severity::Warning, key)
}

fn has_global(config: &Config, severity: Severity, fragment: &str) -> bool {
    problems(config).iter().any(|problem| {
        problem.severity == severity && problem.key.is_none() && problem.message.contains(fragment)
    })
}

fn has_global_error(config: &Config, fragment: &str) -> bool {
    has_global(config, Severity::Error, fragment)
}

fn has_global_warning(config: &Config, fragment: &str) -> bool {
    has_global(config, Severity::Warning, fragment)
}

/// Everything on disk is as it should be.
fn on_disk(config: &Config) -> OnDisk {
    let existing = if config.staging.root.is_empty() {
        Vec::new()
    } else {
        ancestors(&config.staging.root).iter().map(|_| true).collect()
    };
    OnDisk {
        roots: config.library.roots.iter().map(|_| Ok(())).collect(),
        staging: config.staging.root.clone(),
        libraries: config.library.roots.clone(),
        existing,
        writable: true,
    }
}

fn is_conservative(config: &Config) {
    validate(config).expect("valid");
    let policy = config.policy.to_policy();
    assert_eq!(policy.auto_resume, AutoResume::Never);
    assert_eq!(policy.min_match_confidence, MatchConfidence::Probable);
    assert!(!policy.materialization.allow_hardlink);
    assert!(policy.materialization.prefer_reflink);
}

#[test]
fn config_a_minimal_config_is_valid_and_conservative() {
    is_conservative(&minimal());
}

#[test]
fn mod_a_minimal_config_is_valid_and_conservative() {
    is_conservative(&minimal());
}

#[test]
fn config_secrets_do_not_print_themselves() {
    let secret = Secret::new("hunter2");
    assert_eq!(secret.redacted(), "Secret(***)");
    assert!(!secret.redacted().contains("hunter2"));
}

#[test]
fn mod_secrets_do_not_print_themselves() {
    let secret = Secret::new("hunter2");
    assert_eq!(secret.redacted(), "Secret(***)");
    assert!(!secret.redacted().contains("hunter2"));
}

#[test]
fn an_unset_secret_says_so() {
    assert_eq!(Secret::default().redacted(), "Secret(unset)");
    assert_eq!(Secret::new("").source(), &SecretSource::Unset);
    assert_eq!(Secret::new("x").source(), &SecretSource::Inline);
}

#[test]
fn config_a_relative_staging_root_is_rejected() {
    let mut config = minimal();
    config.staging.root = "staging".to_owned();
    assert!(validate(&config).is_err());
}

#[test]
fn mod_a_relative_staging_root_is_rejected() {
    let mut config = minimal();
    config.staging.root = "staging".to_owned();
    assert!(validate(&config).is_err());
    assert!(has_error(&config, "staging.root"));
}

#[test]
fn config_duplicate_tracker_ids_are_rejected() {
    let mut config = minimal();
    config.trackers.push(tracker("example", TrackerKind::Fake));
    assert!(validate(&config).is_err());
}

#[test]
fn mod_duplicate_tracker_ids_are_rejected() {
    let mut config = minimal();
    config.trackers.push(tracker("example", TrackerKind::Fake));
    assert!(validate(&config).is_err());
    assert!(has_error(&config, "trackers.1.id"));
}

#[test]
fn no_trackers_is_a_warning_not_an_error() {
    let mut config = Config::default();
    config.staging.root = "/srv/staging".to_owned();
    assert!(validate(&config).is_ok(), "a warning must not fail validate()");
    assert!(has_global_warning(
        &config,
        "no [[trackers]] entry is configured"
    ));
}

fn poll_cap_below_the_base() -> Config {
    let mut config = minimal();
    config.policy.recheck_poll_seconds = 60;
    config.policy.recheck_poll_max_seconds = 30;
    config
}

#[test]
fn config_a_poll_cap_below_the_base_interval_is_rejected() {
    assert!(validate(&poll_cap_below_the_base()).is_err());
}

#[test]
fn mod_a_poll_cap_below_the_base_interval_is_rejected() {
    let config = poll_cap_below_the_base();
    assert!(validate(&config).is_err());
    assert!(has_error(&config, "policy.recheck_poll_max_seconds"));
}

fn poll_floor_above_the_ceiling() -> Config {
    let mut config = minimal();
    config.policy.tracker_poll_seconds = 60;
    config.policy.tracker_poll_min_seconds = 120;
    config
}

#[test]
fn config_a_tracker_poll_floor_above_the_ceiling_is_rejected() {
    assert!(validate(&poll_floor_above_the_ceiling()).is_err());
}

#[test]
fn mod_a_tracker_poll_floor_above_the_ceiling_is_rejected() {
    let config = poll_floor_above_the_ceiling();
    assert!(validate(&config).is_err());
    assert!(has_error(&config, "policy.tracker_poll_min_seconds"));
}

fn no_unknown_threshold() -> Config {
    let mut config = minimal();
    config.policy.max_consecutive_unknown_tracker_status = 0;
    config
}

#[test]
fn config_a_zero_unknown_tracker_status_threshold_is_rejected() {
    assert!(validate(&no_unknown_threshold()).is_err());
}

#[test]
fn mod_a_zero_unknown_tracker_status_threshold_is_rejected() {
    let config = no_unknown_threshold();
    assert!(validate(&config).is_err());
    assert!(has_error(
        &config,
        "policy.max_consecutive_unknown_tracker_status"
    ));
}

fn no_recheck_timeout() -> Config {
    let mut config = minimal();
    config.policy.recheck_timeout_seconds = 0;
    config
}

#[test]
fn config_a_zero_recheck_timeout_is_rejected() {
    assert!(validate(&no_recheck_timeout()).is_err());
}

#[test]
fn mod_a_zero_recheck_timeout_is_rejected() {
    let config = no_recheck_timeout();
    assert!(validate(&config).is_err());
    assert!(has_error(&config, "policy.recheck_timeout_seconds"));
}

fn no_strategy() -> Config {
    let mut config = minimal();
    config.policy.prefer_reflink = false;
    config.policy.allow_hardlink = false;
    config.policy.allow_copy = false;
    config
}

#[test]
fn config_permitting_no_materialization_strategy_is_rejected() {
    assert!(validate(&no_strategy()).is_err());
}

#[test]
fn mod_permitting_no_materialization_strategy_is_rejected() {
    let config = no_strategy();
    assert!(validate(&config).is_err());
    assert!(has_global_error(&config, "materialization strategy"));
}

// --- Secrets ---

fn nothing() -> SecretFound {
    SecretFound {
        env: None,
        contents: Err("not looked at".to_owned()),
    }
}

/// What is found for the first tracker's secret, with nothing found elsewhere.
fn for_the_tracker(config: &Config, found: SecretFound) -> Vec<SecretFound> {
    let mut all: Vec<SecretFound> = secret_lookups(config).iter().map(|_| nothing()).collect();
    all[1] = found;
    all
}

fn with_key(id: &str, key: &str, file: Option<&str>) -> Config {
    let mut config = Config::default();
    config.staging.root = "/srv/seedmedic/staging".to_owned();
    let mut one = tracker(id, TrackerKind::Fake);
    one.api_key = Secret::new(key);
    one.api_key_file = file.map(|path| path.to_owned());
    config.trackers.push(one);
    config
}

fn env_wins() {
    let config = with_key("env-wins", "from-inline", Some("/run/secrets/api_key"));
    assert_eq!(
        secret_lookups(&config)[1].env_var,
        "SEEDMEDIC_TRACKER_ENV_WINS_API_KEY"
    );
    let found = for_the_tracker(
        &config,
        SecretFound {
            env: Some("from-env".to_owned()),
            contents: Ok("from-file".to_owned()),
        },
    );
    let config = resolve_secrets(config, &found).ok().expect("resolves");
    assert_eq!(config.trackers[0].api_key.expose(), "from-env");
}

#[test]
fn config_a_secret_env_var_wins_over_file_and_inline() {
    env_wins();
}

#[test]
fn mod_a_secret_env_var_wins_over_file_and_inline() {
    env_wins();
}

fn file_wins() {
    let config = with_key("file-wins", "from-inline", Some("/run/secrets/api_key"));
    let found = for_the_tracker(
        &config,
        SecretFound {
            env: None,
            contents: Ok("from-file\n".to_owned()),
        },
    );
    let config = resolve_secrets(config, &found).ok().expect("resolves");
    assert_eq!(config.trackers[0].api_key.expose(), "from-file");
    assert_eq!(
        config.trackers[0].api_key.source(),
        &SecretSource::File {
            path: "/run/secrets/api_key".to_owned()
        }
    );
}

#[test]
fn config_a_secret_file_wins_over_inline_and_is_trimmed_of_trailing_newlines() {
    file_wins();
}

#[test]
fn mod_a_secret_file_wins_over_inline_and_is_trimmed_of_trailing_newlines() {
    file_wins();
}

fn missing_file() {
    let config = with_key("missing-file", "", Some("/nonexistent/path/to/api-key"));
    let found = for_the_tracker(
        &config,
        SecretFound {
            env: None,
            contents: Err("not found".to_owned()),
        },
    );
    let error = resolve_secrets(config, &found)
        .err()
        .expect("a missing secret file is an error");
    assert!(error.message().contains("/nonexistent/path/to/api-key"));
}

#[test]
fn config_a_missing_secret_file_is_a_clear_error_naming_the_path() {
    missing_file();
}

#[test]
fn mod_a_missing_secret_file_is_a_clear_error_naming_the_path() {
    missing_file();
}

#[test]
fn an_inline_secret_stands_where_nothing_else_is_found() {
    let config = with_key("inline", "from-inline", None);
    let found = for_the_tracker(&config, nothing());
    let config = resolve_secrets(config, &found).ok().expect("resolves");
    assert_eq!(config.trackers[0].api_key.expose(), "from-inline");
}

#[test]
fn every_secret_is_looked_up() {
    let mut config = minimal();
    config.download_client = Some(DownloadClientConfig::default());
    config.arr.push(arr(ArrKind::Sonarr, "main tv"));
    let vars: Vec<String> = secret_lookups(&config)
        .into_iter()
        .map(|lookup| lookup.env_var)
        .collect();
    assert_eq!(
        vars,
        vec![
            "SEEDMEDIC_DOWNLOAD_CLIENT_PASSWORD",
            "SEEDMEDIC_SERVER_AUTH_TOKEN",
            "SEEDMEDIC_TRACKER_EXAMPLE_API_KEY",
            "SEEDMEDIC_ARR_MAIN_TV_API_KEY",
        ]
    );
    assert_eq!(shouty("a-b.c9\u{e9}"), "A_B_C9_");
}

// --- On disk ---

fn rejects_missing_credentials() {
    let mut config = Config::default();
    config.staging.root = "/srv/staging".to_owned();
    config.trackers.push(tracker("aither", TrackerKind::Unit3d));
    assert!(config.validate_runtime(BUILD, &on_disk(&config)).is_err());
}

#[test]
fn config_validate_runtime_rejects_a_unit3d_tracker_without_credentials() {
    rejects_missing_credentials();
}

#[test]
fn mod_validate_runtime_rejects_a_unit3d_tracker_without_credentials() {
    rejects_missing_credentials();
}

fn rejects_a_missing_root() {
    let mut config = minimal();
    config.library.roots = vec!["/nonexistent/library/root".to_owned()];
    let mut disk = on_disk(&config);
    disk.roots = vec![Err("No such file or directory".to_owned())];
    let error = config
        .validate_runtime(BUILD, &disk)
        .expect_err("a missing library root is rejected");
    assert!(error.message().contains("/nonexistent/library/root"));
}

#[test]
fn config_validate_runtime_rejects_a_non_existent_library_root() {
    rejects_a_missing_root();
}

#[test]
fn mod_validate_runtime_rejects_a_non_existent_library_root() {
    rejects_a_missing_root();
}

fn rejects_an_overlap() {
    let mut config = minimal();
    config.library.roots = vec!["/srv/media".to_owned()];
    config.staging.root = "/srv/media/staging".to_owned();
    assert!(config.validate_runtime(BUILD, &on_disk(&config)).is_err());
}

#[test]
fn config_validate_runtime_rejects_a_staging_root_inside_a_library_root() {
    rejects_an_overlap();
}

#[test]
fn mod_validate_runtime_rejects_a_staging_root_inside_a_library_root() {
    rejects_an_overlap();
}

#[test]
fn min_match_confidence_exact_is_a_warning_not_an_error() {
    let mut config = minimal();
    config.policy.min_match_confidence = MatchConfidence::Exact;
    assert!(validate(&config).is_ok(), "a warning must not fail validate()");
    assert!(has_warning(&config, "policy.min_match_confidence"));
}

fn with_secrets() -> Config {
    let mut config = Config::default();
    config.staging.root = "/srv/seedmedic/staging".to_owned();
    let mut one = tracker("example", TrackerKind::Unit3d);
    one.api_key = Secret::new("tr4ck3r-secret");
    config.trackers.push(one);
    let mut client = DownloadClientConfig::default();
    client.password = Secret::new("qbit-secret");
    config.download_client = Some(client);
    config
}

fn summary_is_redacted() {
    let summary = with_secrets().redacted_summary();
    assert!(!summary.contains("tr4ck3r-secret"));
    assert!(!summary.contains("qbit-secret"));
    assert!(summary.contains("api_key=set"));
    assert!(summary.contains("password=set"));
}

#[test]
fn config_redacted_summary_never_contains_a_secret_value() {
    summary_is_redacted();
}

#[test]
fn mod_redacted_summary_never_contains_a_secret_value() {
    summary_is_redacted();
}

#[test]
fn the_summary_reads_line_by_line() {
    let mut config = with_secrets();
    config.library.roots = vec!["/a".to_owned(), "/b".to_owned()];
    config.arr.push(arr(ArrKind::Radarr, "main"));
    assert_eq!(
        config.redacted_summary(),
        "server.bind_address = 0.0.0.0:9899\n\
         server.auth_token = unset\n\
         database.path = data/seedmedic.db\n\
         staging.root = /srv/seedmedic/staging\n\
         staging.min_free_bytes = 1073741824\n\
         library.roots = [/a, /b]\n\
         policy.auto_resume = Never\n\
         policy.min_match_confidence = Probable\n\
         policy.verification_pieces = 3\n\
         policy.prefer_reflink = true, allow_hardlink = false, allow_copy = true\n\
         policy.tracker_poll_seconds = 900\n\
         worker.owner = seedmedic\n\
         worker.batch_size = 4\n\
         [[trackers]] id=example kind=Unit3d base_url=http://example.test/ token_placement=Header api_key=set\n\
         download_client kind=QBittorrent base_url=http://localhost/ username=\"\" password=set category=Some(\"seedmedic\")\n\
         [[arr]] kind=Radarr name=main base_url=http://arr.test/ api_key=unset\n\
         metrics.enabled = false\n\
         notifications.webhook_url = unset\n"
    );
}

// --- Problems ---

#[test]
fn a_warning_does_not_make_validate_fail() {
    let config = minimal();
    assert!(!problems(&config).is_empty(), "it should carry warnings");
    assert!(validate(&config).is_ok());
}

#[test]
fn problems_does_no_io_and_ignores_a_nonexistent_library_root() {
    let mut config = minimal();
    config.library.roots = vec!["/nonexistent/library/root".to_owned()];
    assert!(problems(&config)
        .iter()
        .all(|problem| !problem.message.contains("/nonexistent")));
}

#[test]
fn three_independent_mistakes_produce_three_problems_not_one() {
    let mut config = minimal();
    config.policy.max_attempts = 0;
    config.policy.recheck_timeout_seconds = 0;
    config.worker.batch_size = 0;
    let errors: Vec<_> = problems(&config)
        .into_iter()
        .filter(|problem| problem.severity == Severity::Error)
        .collect();
    assert_eq!(errors.len(), 3, "{errors:?}");
}

#[test]
fn a_missing_tracker_api_key_names_the_indexed_key() {
    let mut config = Config::default();
    config.staging.root = "/srv/seedmedic/staging".to_owned();
    config.trackers.push(tracker("demo", TrackerKind::Fake));
    config.trackers.push(tracker("aither", TrackerKind::Unit3d));
    let problem = config
        .problems_on_disk(BUILD, &on_disk(&config))
        .into_iter()
        .find(|problem| problem.key.as_deref() == Some("trackers.1.api_key"))
        .expect("missing api_key is a problem attributed to the second tracker");
    assert_eq!(problem.severity, Severity::Error);
}

#[test]
fn two_errors_and_one_warning_are_all_reported() {
    let mut config = minimal();
    config.server.auth_token = Secret::new("shh");
    config.staging.min_free_bytes = 0;
    config.library.roots = vec!["/srv/media".to_owned()];
    let mut client = DownloadClientConfig::default();
    client.kind = DownloadClientKind::Fake;
    client.base_url = "http://qbittorrent:8080/".to_owned();
    config.download_client = Some(client);
    config.policy.max_attempts = 0;
    config.worker.batch_size = 0;
    let found = problems(&config);

    let errors = found
        .iter()
        .filter(|problem| problem.severity == Severity::Error)
        .count();
    let warnings = found
        .iter()
        .filter(|problem| problem.severity == Severity::Warning)
        .count();
    assert_eq!(errors, 2, "{found:?}");
    assert_eq!(warnings, 1, "{found:?}");
}

#[test]
fn an_empty_arr_name_is_rejected() {
    let mut config = minimal();
    config.arr.push(arr(ArrKind::Sonarr, ""));
    assert!(has_error(&config, "arr.0.name"));
}

#[test]
fn duplicate_arr_names_are_rejected() {
    let mut config = minimal();
    config.arr.push(arr(ArrKind::Sonarr, "main"));
    config.arr.push(arr(ArrKind::Radarr, "main"));
    assert!(has_error(&config, "arr.1.name"));
}

#[test]
fn arr_names_colliding_only_after_shouty_are_rejected() {
    let mut config = minimal();
    config.arr.push(arr(ArrKind::Sonarr, "main-arr"));
    config.arr.push(arr(ArrKind::Radarr, "main_arr"));
    assert!(has_error(&config, "arr.1.name"));
}

#[test]
fn tracker_ids_colliding_only_after_shouty_are_rejected() {
    let mut config = Config::default();
    config.staging.root = "/srv/seedmedic/staging".to_owned();
    config.trackers.push(tracker("exa-mple", TrackerKind::Fake));
    config.trackers.push(tracker("exa_mple", TrackerKind::Fake));
    assert!(has_error(&config, "trackers.1.id"));
}

#[test]
fn colliding_names_are_both_named() {
    let names: Vec<String> = ["a-b", " ", "a_b", "a-b"]
        .iter()
        .map(|name| name.to_string())
        .collect();
    let messages: Vec<String> = repeated_name_problems("arr", "name", &names)
        .into_iter()
        .map(|problem| problem.message)
        .collect();
    assert_eq!(
        messages,
        vec![
            "every arr needs a non-empty `name`",
            "arr name `a_b` and `a-b` both become `A_B` as an environment variable suffix, which collides",
            "arr name `a-b` is used twice",
        ]
    );
}

#[test]
fn retry_max_below_retry_base_is_rejected() {
    let mut config = minimal();
    config.policy.retry_base_seconds = 120;
    config.policy.retry_max_seconds = 60;
    assert!(has_error(&config, "policy.retry_max_seconds"));
}

#[test]
fn a_placeholder_download_client_base_url_is_a_warning() {
    let mut config = minimal();
    config.download_client = Some(DownloadClientConfig::default());
    assert!(has_warning(&config, "download_client.base_url"));
}

#[test]
fn no_candidate_source_is_a_warning() {
    assert!(has_global_warning(
        &minimal(),
        "no candidate source is configured"
    ));
}

#[test]
fn a_candidate_source_silences_the_no_candidate_source_warning() {
    let mut config = minimal();
    config.library.roots = vec!["/srv/media".to_owned()];
    assert!(!has_global_warning(
        &config,
        "no candidate source is configured"
    ));
}

#[test]
fn a_non_http_webhook_scheme_is_rejected() {
    let mut config = minimal();
    config.notifications.webhook_url = Some("mailto:ops@example.test".to_owned());
    assert!(has_error(&config, "notifications.webhook_url"));
    config.notifications.webhook_url = Some("https://ops.test/".to_owned());
    assert!(!has_error(&config, "notifications.webhook_url"));
}

#[test]
fn an_unset_auth_token_is_a_warning() {
    assert!(has_warning(&minimal(), "server.auth_token"));
}

#[test]
fn a_zero_min_free_bytes_is_a_warning() {
    let mut config = minimal();
    config.staging.min_free_bytes = 0;
    assert!(has_warning(&config, "staging.min_free_bytes"));
}

#[test]
fn zero_verification_pieces_is_a_warning() {
    let mut config = minimal();
    config.policy.verification_pieces = 0;
    assert!(has_warning(&config, "policy.verification_pieces"));
}

#[test]
fn a_recheck_timeout_below_the_poll_ceiling_is_a_warning() {
    let mut config = minimal();
    config.policy.recheck_poll_max_seconds = 600;
    config.policy.recheck_timeout_seconds = 300;
    assert!(has_warning(&config, "policy.recheck_timeout_seconds"));
}

#[test]
fn mixing_a_fake_tracker_with_a_real_one_is_rejected() {
    let mut config = minimal();
    config.trackers.push(tracker("aither", TrackerKind::Unit3d));
    assert!(has_global_error(
        &config,
        "mix a `fake` tracker with a real one"
    ));
}

#[test]
fn an_unset_staging_root_is_a_warning_not_an_error() {
    let mut config = Config::default();
    config.trackers.push(tracker("example", TrackerKind::Fake));
    assert!(validate(&config).is_ok(), "a warning must not fail validate()");
    assert!(has_warning(&config, "staging.root"));
}

#[test]
fn an_absent_download_client_is_a_warning_not_an_error() {
    assert!(
        validate(&minimal()).is_ok(),
        "a warning must not fail validate()"
    );
    assert!(has_global_warning(
        &minimal(),
        "no download_client is configured"
    ));
}

fn qbittorrent(username: &str, password: &str) -> Config {
    let mut config = minimal();
    let mut client = DownloadClientConfig::default();
    client.base_url = "http://qbit.test/".to_owned();
    client.username = username.to_owned();
    client.password = Secret::new(password);
    config.download_client = Some(client);
    config
}

#[test]
fn a_qbittorrent_client_without_credentials_is_rejected() {
    let config = qbittorrent("", "");
    let error = config
        .validate_runtime(BUILD, &on_disk(&config))
        .expect_err("missing qbittorrent credentials are rejected");
    assert!(error.message().contains("download_client"));
}

#[test]
fn a_qbittorrent_client_with_credentials_has_no_credential_problem() {
    let config = qbittorrent("admin", "hunter2");
    assert!(config
        .problems_on_disk(BUILD, &on_disk(&config))
        .iter()
        .all(|problem| problem.key.as_deref() != Some("download_client")));
}

#[test]
fn the_default_configuration_is_startable() {
    let errors: Vec<_> = problems(&Config::default())
        .into_iter()
        .filter(|problem| problem.severity == Severity::Error)
        .collect();
    assert!(errors.is_empty(), "{errors:?}");
}

#[test]
fn an_address_that_is_none_is_rejected_with_the_reason() {
    let found = minimal().problems(BUILD, &Err("invalid socket address syntax".to_owned()));
    assert_eq!(found[0].key.as_deref(), Some("server.bind_address"));
    assert_eq!(
        found[0].message,
        "server.bind_address `0.0.0.0:9899` is not a socket address: invalid socket address syntax"
    );
}

#[test]
fn a_build_without_fakes_rejects_them() {
    let mut config = minimal();
    let mut client = DownloadClientConfig::default();
    client.kind = DownloadClientKind::Fake;
    config.download_client = Some(client);
    let bare = Build {
        fakes: false,
        metrics: false,
    };
    let keys: Vec<Option<String>> = config
        .problems(bare, &Ok(()))
        .into_iter()
        .filter(|problem| problem.severity == Severity::Error)
        .map(|problem| problem.key)
        .collect();
    assert_eq!(
        keys,
        vec![
            Some("trackers.0.kind".to_owned()),
            Some("download_client.kind".to_owned())
        ]
    );
}

#[test]
fn polling_a_tracker_too_often_is_rejected() {
    let mut config = minimal();
    config.policy.tracker_poll_seconds = 59;
    config.policy.tracker_poll_min_seconds = 1;
    assert!(has_error(&config, "policy.tracker_poll_seconds"));
}

#[test]
fn an_unwritable_staging_root_names_what_denies_it() {
    let mut config = minimal();
    config.staging.root = "/srv/seedmedic/staging".to_owned();
    let mut disk = on_disk(&config);
    assert_eq!(
        ancestors(&config.staging.root),
        vec!["/srv/seedmedic/staging", "/srv/seedmedic", "/srv", "/"]
    );
    disk.existing = vec![false, false, true, true];
    disk.writable = false;
    let found = config.problems_on_disk(BUILD, &disk);
    assert_eq!(
        found[0].message,
        "staging.root `/srv/seedmedic/staging` is not writable: `/srv` denies write access"
    );
    assert_eq!(
        nearest_existing_ancestor(&vec!["a".to_owned(), String::new()], &vec![false, false]),
        ""
    );
}

#[test]
fn who_may_write_goes_by_the_mode() {
    assert!(directory_is_writable(0, 0, 5, 5, 0));
    assert!(directory_is_writable(5, 5, 5, 9, 0o200));
    assert!(!directory_is_writable(5, 5, 5, 9, 0o577));
    assert!(directory_is_writable(5, 9, 6, 9, 0o020));
    assert!(!directory_is_writable(5, 9, 6, 9, 0o702));
    assert!(directory_is_writable(5, 9, 6, 8, 0o002));
}

// --- The command-line checks ---

#[test]
fn errors_are_printed_before_warnings() {
    let mut config = minimal();
    config.worker.batch_size = 0;
    let report = check_config(&config, BUILD, &Ok(()), &on_disk(&config));
    assert!(report.failed);
    assert_eq!(report.lines[0], config.redacted_summary());
    assert_eq!(
        report.lines[1],
        "ERROR worker.batch_size: worker.batch_size must be at least 1"
    );
    assert!(report.lines[2].starts_with("WARNING server.auth_token: "));
    assert!(report.lines[3].starts_with("WARNING: no candidate source"));
}

#[test]
fn a_sound_configuration_is_said_to_be_ok() {
    let config = minimal();
    let report = check_config(&config, BUILD, &Ok(()), &on_disk(&config));
    assert!(!report.failed);
    assert_eq!(report.lines.last().expect("a line"), "configuration OK");
}

#[test]
fn a_failing_tracker_is_named_and_flags_the_whole_run() {
    let mut config = Config::default();
    config.trackers.push(tracker("broken", TrackerKind::Unit3d));
    let (results, any_failed) = probe_all(
        &config,
        vec![test_tracker(&Some(Err(TrackerError::Unauthorized)))],
    );

    assert!(any_failed);
    assert_eq!(results.len(), 1);
    assert_eq!(results[0].label, "tracker broken");
    assert!(!results[0].result.ok);
    assert!(check_connections(&results)[0].starts_with("FAILED tracker broken: "));
}

#[test]
fn every_integration_healthy_reports_no_failure() {
    let (results, any_failed) = probe_all(&Config::default(), Vec::new());
    assert!(!any_failed);
    assert!(results.is_empty());
}

#[test]
fn probes_are_labelled_in_their_order() {
    let mut config = minimal();
    config.download_client = Some(DownloadClientConfig::default());
    config.arr.push(arr(ArrKind::Sonarr, "main"));
    let fine = || ProbeResult::ok("reachable");
    let (results, any_failed) = probe_all(&config, vec![fine(), fine(), fine()]);
    assert!(!any_failed);
    assert_eq!(
        check_connections(&results),
        vec![
            "OK tracker example: reachable",
            "OK download client: reachable",
            "OK arr main: reachable",
        ]
    );
}

// --- Wiring ---

#[test]
fn a_generation_is_what_the_configuration_asks_for() {
    let mut config = minimal();
    let mut sonarr = arr(ArrKind::Sonarr, "main");
    sonarr.path_mappings = vec![PathMappingConfig {
        from: "/tv".to_owned(),
        to: "/srv/tv".to_owned(),
    }];
    config.arr.push(sonarr);
    config.library.roots = vec!["/srv/media".to_owned()];
    let generation = plan(&config, BUILD, &Ok(())).ok().expect("valid");
    assert_eq!(
        generation.staging,
        StagingChoice::Local {
            root: "/srv/seedmedic/staging".to_owned(),
            min_free_bytes: 1 << 30
        }
    );
    assert_eq!(generation.inspector, InspectorChoice::Fake);
    assert_eq!(generation.client, ClientChoice::Unconfigured);
    assert_eq!(generation.sources.len(), 2);
    match &generation.sources[0] {
        SourceChoice::Arr(source) => {
            assert_eq!(source.label, "sonarr:main");
            assert_eq!(source.map_path("/tv/a.mkv"), "/srv/tv/a.mkv");
        }
        other => panic!("unexpected {other:?}"),
    }
    assert_eq!(generation.health_threshold, Duration::from_secs(60));
    assert!(generation.auth_token.is_none());
    assert_eq!(generation.setup_warnings.len(), 2);
}

#[test]
fn a_configuration_with_errors_makes_no_generation() {
    let mut config = minimal();
    config.worker.batch_size = 0;
    assert!(matches!(
        plan(&config, BUILD, &Ok(())),
        Err(ConfigError::Invalid(_))
    ));
}

#[test]
fn the_demo_has_two_torrents() {
    let now = TestClock::default().now();
    let demos = demo_torrents(&TrackerId::new("demo"), now);
    assert_eq!(demos.len(), 2);
    assert_eq!(demos[0].hit_and_run.torrent_id.as_str(), "demo-1");
    assert_eq!(demos[1].hit_and_run.size_bytes, 5 << 20);
    assert_eq!(
        demos[1].metadata.files[0].path.as_str(),
        "Demo.Show.S01.1080p/S01E01.mkv"
    );
}

// --- Reloading ---

fn unfinished(tracker: &str, staged: bool) -> RepairJob {
    let now = TestClock::default().now();
    let mut job = StoredJob::discovered(
        JobId(1),
        &HitAndRun {
            tracker: TrackerId::new(tracker),
            torrent_id: TrackerTorrentId::new("t1"),
            torrent_name: "Show".to_owned(),
            info_hash: None,
            size_bytes: 1,
            deadline: None,
            observed_at: now,
        },
        now,
    )
    .job;
    if staged {
        job.staging_dir = Some(SafeRelativePath::parse("job-1").expect("valid"));
    }
    job
}

fn refusal(old: &Config, new: &Config, jobs: Vec<RepairJob>, leased: bool) -> Option<String> {
    match check_refusals(old, new, &jobs, &Ok(leased)) {
        Ok(()) => None,
        Err(error) => Some(error.message()),
    }
}

#[test]
fn the_staging_root_stays_while_something_is_staged() {
    let old = minimal();
    let mut new = minimal();
    new.staging.root = "/srv/elsewhere".to_owned();
    assert_eq!(
        refusal(&old, &new, vec![unfinished("example", true)], false).expect("refused"),
        "staging.root cannot change while 1 unfinished repair(s) have data staged under the current root; finish or abandon them first"
    );
    assert_eq!(
        refusal(&old, &new, vec![unfinished("example", false)], false),
        None
    );
    // Nothing can be staged where there was no root.
    let mut fresh = minimal();
    fresh.staging.root = String::new();
    assert_eq!(
        refusal(&fresh, &new, vec![unfinished("example", true)], false),
        None
    );
}

#[test]
fn a_tracker_with_unfinished_repairs_cannot_go() {
    let old = minimal();
    let mut new = Config::default();
    new.staging.root = old.staging.root.clone();
    assert_eq!(
        refusal(&old, &new, vec![unfinished("example", false)], false).expect("refused"),
        "tracker `example` cannot be removed or renamed while it has 1 unfinished repair(s)"
    );
    assert_eq!(
        refusal(&old, &new, vec![unfinished("other", false)], false),
        None
    );
}

#[test]
fn library_roots_are_not_narrowed_under_a_repair() {
    let mut old = minimal();
    old.library.roots = vec!["/srv/media".to_owned()];
    let new = minimal();
    assert_eq!(
        refusal(&old, &new, vec![unfinished("example", false)], false).expect("refused"),
        "library.roots cannot be narrowed while 1 unfinished repair(s) exist"
    );
    assert_eq!(refusal(&old, &new, Vec::new(), false), None);
}

#[test]
fn the_owner_stays_while_a_repair_is_leased() {
    let old = minimal();
    let mut new = minimal();
    new.worker.owner = "other".to_owned();
    assert_eq!(
        refusal(&old, &new, Vec::new(), true).expect("refused"),
        "worker.owner cannot change while a repair is leased"
    );
    assert_eq!(refusal(&old, &new, Vec::new(), false), None);
    let unknown: Result<bool, StoreError> = Err(StoreError::Database("locked".to_owned()));
    assert_eq!(
        check_refusals(&old, &new, &Vec::new(), &unknown),
        Err(ReloadError::Refused(
            "could not check active leases: database error: locked".to_owned()
        ))
    );
}

#[test]
fn a_reload_that_cannot_see_the_repairs_is_refused() {
    let config = minimal();
    let unknown: Result<Vec<RepairJob>, StoreError> =
        Err(StoreError::Database("locked".to_owned()));
    assert_eq!(
        may_reload(&config, &config, &unknown, &Ok(false))
            .expect_err("refused")
            .message(),
        "could not check in-flight repairs before reloading: database error: locked"
    );
    assert_eq!(may_reload(&config, &config, &Ok(Vec::new()), &Ok(false)), Ok(()));
}

#[test]
fn what_needs_a_restart_is_reported() {
    let old = minimal();
    let mut new = minimal();
    assert!(Applied::diff(&old, &new).restart_needed.is_empty());
    new.database.path = "other.db".to_owned();
    new.server.bind_address = "127.0.0.1:1".to_owned();
    assert_eq!(
        Applied::diff(&old, &new).restart_needed,
        vec!["database.path", "server.bind_address"]
    );
}

// --- Loading ---

#[test]
fn a_missing_config_file_starts_unconfigured_with_defaults() {
    let missing = FileFound::Missing("no such file".to_owned());
    let config = Config::load_from("/nonexistent/config.toml", missing)
        .expect("a missing file falls back to defaults, not an error");
    assert!(config.trackers.is_empty());
    assert!(config.staging.root.is_empty());
    assert!(config.download_client.is_none());
    let missing = FileFound::Missing("no such file".to_owned());
    assert_eq!(
        Config::parse_from("config.toml", missing)
            .err()
            .expect("a check needs a file")
            .message(),
        "cannot read config.toml: no such file"
    );
}

#[test]
fn an_unparseable_config_file_still_fails_hard() {
    let why = toml::from_str::<toml::Table>("this is not valid toml =====")
        .expect_err("no TOML")
        .to_string();
    let error = Config::load_from("config.toml", FileFound::Unparseable(why))
        .err()
        .expect("unparseable config is an error");
    assert!(matches!(error, ConfigError::Parse { .. }));
}

#[test]
fn a_config_path_unreadable_for_another_reason_still_fails_hard() {
    let why = FileFound::Unreadable("is a directory".to_owned());
    let error = Config::load_from("/etc", why)
        .err()
        .expect("a directory is not readable");
    assert!(matches!(error, ConfigError::Read { .. }));
}

#[test]
fn an_unset_auth_token_logs_a_loud_warning_on_load() {
    let config = Config::load_from("config.toml", FileFound::Parsed(minimal())).expect("parsed");
    let warnings = config
        .startup_warnings(BUILD, &Ok(()), &on_disk(&config))
        .expect("a writable staging root is startable");
    assert!(warnings
        .iter()
        .any(|warning| warning.contains("anyone who can reach this port")));
    let error = config
        .startup_warnings(BUILD, &Err("odd".to_owned()), &on_disk(&config))
        .expect_err("no socket address");
    assert!(matches!(error, ConfigError::Invalid(_)));
}

// --- The document ---

#[test]
fn a_dotted_key_is_told_apart() {
    assert_eq!(
        segments("trackers.0.base_url"),
        vec![
            Segment::Name("trackers".to_owned()),
            Segment::Index(0),
            Segment::Name("base_url".to_owned())
        ]
    );
    assert_eq!(segments("+7"), vec![Segment::Index(7)]);
    assert_eq!(
        segments("99999999999999999999"),
        vec![Segment::Name("99999999999999999999".to_owned())]
    );
    assert_eq!(segments(""), vec![Segment::Name(String::new())]);
}

#[test]
fn a_key_leads_through_tables_and_rows_to_a_field() {
    let found = route(segments("trackers.1.api_key")).expect("a route");
    assert_eq!(found.field, "api_key");
    assert_eq!(found.levels.len(), 1);
    assert_eq!(found.levels[0].name, "trackers");
    assert_eq!(found.levels[0].row, Some(1));
    let found = route(segments("a.b.c")).expect("a route");
    assert_eq!(found.levels.len(), 2);
    assert_eq!(route(segments("trackers.1")), None);
    assert_eq!(route(segments("1.x")), None);
}

#[test]
fn only_a_secret_that_is_set_is_redacted() {
    assert!(must_redact("api_key", Some("shh")));
    assert!(must_redact("password", Some("shh")));
    assert!(must_redact("auth_token", Some("shh")));
    assert!(!must_redact("api_key", Some("")));
    assert!(!must_redact("api_key", None));
    assert!(!must_redact("id", Some("shh")));
}

const SAMPLE: &str = r#"
# a comment worth keeping
[server]
bind_address = "0.0.0.0:9899" # inline comment

[staging]
root = "/srv/staging"

[[trackers]]
id = "demo"
kind = "fake"
api_key = ""

[[trackers]]
id = "aither"
kind = "unit3d"
api_key = "shh"
"#;

fn stamp(length: u64) -> Stamp {
    Stamp {
        length,
        modified_nanos: 5,
    }
}

fn document(stamped: bool, writable: bool) -> ConfigDocument {
    ConfigDocument::read(
        "/etc/seedmedic/config.toml",
        Ok(Some(SAMPLE.to_owned())),
        Some(0o640),
        if stamped { Some(stamp(9)) } else { None },
        writable,
    )
    .ok()
    .expect("parses")
}

fn text_at<'a>(document: &'a ConfigDocument, key: &str) -> Option<&'a str> {
    document.get(key).and_then(toml_edit::Item::as_str)
}

#[test]
fn get_reads_a_nested_scalar() {
    let doc = document(true, true);

    assert_eq!(text_at(&doc, "server.bind_address"), Some("0.0.0.0:9899"));
    assert_eq!(text_at(&doc, "trackers.1.id"), Some("aither"));
    assert!(doc.get("trackers.5.id").is_none());
    assert!(doc.get("nonexistent.key").is_none());
}

#[test]
fn set_preserves_comments_and_key_order_for_untouched_keys() {
    let mut doc = document(true, true);

    doc.set(
        "server.bind_address",
        Setting::Text("127.0.0.1:9899".to_owned()),
    );
    let rendered = doc.text();

    assert!(rendered.contains("# a comment worth keeping"));
    assert!(rendered.contains("127.0.0.1:9899"));
    assert!(rendered.contains("root = \"/srv/staging\""));
}

const COMMENTED: &str = "\
# top
[server]
# above a
a = 1 # beside a
# above b
b = 2 # beside b

# first
[[trackers]]
id = \"one\" # beside one

# second
[[trackers]]
# above id
id = \"two\" # beside two
# above key
api_key = \"shh\" # beside key
# end
";

fn commented() -> ConfigDocument {
    ConfigDocument::read(
        "config.toml",
        Ok(Some(COMMENTED.to_owned())),
        None,
        None,
        true,
    )
    .ok()
    .expect("parses")
}

#[test]
fn setting_loses_the_comments_of_the_key_alone() {
    let mut doc = commented();
    doc.set("server.a", Setting::Integer(7));
    assert_eq!(
        doc.text(),
        COMMENTED.replace("# above a\na = 1 # beside a\n", "a = 7\n")
    );
    let mut doc = commented();
    doc.set_array("trackers.0.id", vec!["x".to_owned()]);
    assert_eq!(
        doc.text(),
        COMMENTED.replace("id = \"one\" # beside one\n", "id = [\"x\"]\n")
    );
}

#[test]
fn removing_loses_the_comments_of_the_key_alone() {
    let mut doc = commented();
    doc.remove("server.b");
    assert_eq!(
        doc.text(),
        COMMENTED.replace("# above b\nb = 2 # beside b\n", "")
    );
}

#[test]
fn rows_come_and_go_without_the_comments_of_others() {
    let mut doc = commented();
    assert_eq!(doc.push_row("trackers"), 2);
    assert_eq!(
        doc.text(),
        COMMENTED.replace("# end\n", "\n[[trackers]]\n# end\n")
    );
    let mut doc = commented();
    doc.remove_row("trackers", 0);
    assert_eq!(
        doc.text(),
        COMMENTED.replace(
            "\n# first\n[[trackers]]\nid = \"one\" # beside one\n",
            ""
        )
    );
}

#[test]
fn redaction_keeps_the_comments_around_the_keys() {
    assert_eq!(
        commented().to_redacted_toml(),
        COMMENTED.replace("\"shh\" # beside key", "\"<redacted>\"")
    );
}

#[test]
fn what_was_written_reads_back() {
    let mut doc = commented();
    doc.set("server.a", Setting::Integer(7));
    doc.set("server.c", Setting::Text("\"quoted\"\n# no comment".to_owned()));
    doc.set_array("library.roots", vec!["/a".to_owned(), "/b c".to_owned()]);
    assert_eq!(doc.push_row("trackers"), 2);
    doc.set("trackers.2.id", Setting::Text("three".to_owned()));
    doc.remove("server.b");
    doc.remove_row("trackers", 0);
    let again = ConfigDocument::read("config.toml", Ok(Some(doc.text())), None, None, true)
        .ok()
        .expect("parses");
    assert_eq!(
        again.get("server.a").and_then(toml_edit::Item::as_integer),
        Some(7)
    );
    assert_eq!(
        text_at(&again, "server.c"),
        Some("\"quoted\"\n# no comment")
    );
    assert!(again.get("server.b").is_none());
    assert_eq!(again.row_count("trackers"), 2);
    assert_eq!(text_at(&again, "trackers.0.id"), Some("two"));
    assert_eq!(text_at(&again, "trackers.0.api_key"), Some("shh"));
    assert_eq!(text_at(&again, "trackers.1.id"), Some("three"));
    assert_eq!(again.text(), doc.text());
}

#[test]
fn set_creates_a_new_repeated_section_row() {
    let mut doc = document(true, true);

    doc.set("trackers.2.id", Setting::Text("third".to_owned()));
    assert_eq!(text_at(&doc, "trackers.2.id"), Some("third"));
    assert_eq!(doc.row_count("trackers"), 3);
}

#[test]
fn remove_drops_a_key_without_disturbing_others() {
    let mut doc = document(true, true);

    doc.remove("trackers.1.api_key");
    assert!(doc.get("trackers.1.api_key").is_none());
    assert_eq!(text_at(&doc, "trackers.1.id"), Some("aither"));
}

#[test]
fn remove_on_a_missing_key_is_a_no_op() {
    let mut doc = document(true, true);

    doc.remove("trackers.9.api_key");
    doc.remove("nonexistent.table.key");
    doc.remove("trackers.1");
    assert_eq!(doc.text(), SAMPLE);
}

#[test]
fn to_redacted_toml_never_contains_a_secret_value() {
    let doc = ConfigDocument::read(
        "config.toml",
        Ok(Some(
            r#"
            [server]
            auth_token = "SENTINEL-1"

            [[trackers]]
            id = "demo"
            kind = "unit3d"
            api_key = "SENTINEL-2"

            [download_client]
            password = "SENTINEL-3"
            "#
            .to_owned(),
        )),
        None,
        None,
        true,
    )
    .ok()
    .expect("parses");

    let redacted = doc.to_redacted_toml();

    assert!(!redacted.contains("SENTINEL"));
    assert!(redacted.contains("<redacted>"));
}

#[test]
fn to_redacted_toml_leaves_an_unset_secret_empty() {
    let redacted = document(true, true).to_redacted_toml();
    assert!(redacted.contains("api_key = \"\""));
    assert!(!redacted.contains("shh"));
    assert!(redacted.contains("# a comment worth keeping"));
}

#[test]
fn a_secret_in_a_list_is_redacted_too() {
    let doc = ConfigDocument::read(
        "config.toml",
        Ok(Some(
            "trackers = [{ id = \"demo\", api_key = \"SENTINEL-1\" }]\n\
             nested = [[{ password = \"SENTINEL-2\" }], [\"kept\", 7]]\n"
                .to_owned(),
        )),
        None,
        None,
        true,
    )
    .ok()
    .expect("parses");
    let redacted = doc.to_redacted_toml();
    assert!(!redacted.contains("SENTINEL"));
    assert!(redacted.contains("id = \"demo\""));
    assert!(redacted.contains("[\"kept\", 7]"));
}

#[test]
fn keys_stay_in_their_order() {
    let mut doc = ConfigDocument::read(
        "config.toml",
        Ok(Some("[a]\none = 1\ntwo = 2\nthree = 3\n".to_owned())),
        None,
        None,
        true,
    )
    .ok()
    .expect("parses");
    doc.set("a.two", Setting::Integer(22));
    doc.set("a.four", Setting::Integer(4));
    doc.remove("a.one");
    assert_eq!(doc.text(), "[a]\ntwo = 22\nthree = 3\nfour = 4\n");
}

#[test]
fn every_sort_of_setting_is_read_back() {
    let mut doc = document(true, true);

    doc.set("policy.tries", Setting::Integer(-3));
    doc.set("policy.careful", Setting::Flag(true));
    doc.set_array(
        "library.roots",
        vec!["/a".to_owned(), "/b c".to_owned()],
    );
    assert_eq!(
        doc.get("policy.tries").and_then(toml_edit::Item::as_integer),
        Some(-3)
    );
    assert_eq!(
        doc.get("policy.careful").and_then(toml_edit::Item::as_bool),
        Some(true)
    );
    assert!(doc.text().contains("roots = [\"/a\", \"/b c\"]"));
    assert_eq!(text_at(&doc, "server.bind_address"), Some("0.0.0.0:9899"));
}

#[test]
fn an_inline_table_is_a_table_too() {
    let mut doc = ConfigDocument::read(
        "config.toml",
        Ok(Some("client = { url = \"x\", password = \"shh\" }\n".to_owned())),
        None,
        None,
        true,
    )
    .ok()
    .expect("parses");
    assert_eq!(text_at(&doc, "client.url"), Some("x"));
    assert!(!doc.to_redacted_toml().contains("shh"));
    doc.set("client.url", Setting::Text("y".to_owned()));
    doc.remove("client.password");
    assert_eq!(text_at(&doc, "client.url"), Some("y"));
    assert!(doc.get("client.password").is_none());
}

#[test]
fn a_value_in_the_way_is_not_overwritten() {
    let mut doc = document(true, true);
    assert!(!doc.try_set("server.bind_address.port", Setting::Integer(1)));
    assert!(!doc.try_set("server.0.port", Setting::Integer(1)));
    assert!(!doc.try_set("trackers.0", Setting::Integer(1)));
    assert_eq!(doc.try_push_row("server"), None);
    assert_eq!(doc.text(), SAMPLE);
    assert!(doc.try_set("server.port", Setting::Integer(1)));
    assert!(doc.try_set("arr.1.id", Setting::Text("x".to_owned())));
    assert_eq!(doc.row_count("arr"), 2);
    assert!(doc.get("arr.0.id").is_none());
}

#[test]
fn rows_come_and_go() {
    let mut doc = document(true, true);
    assert_eq!(doc.row_count("trackers"), 2);
    assert_eq!(doc.row_count("server"), 0);
    assert_eq!(doc.row_count("arr"), 0);
    assert_eq!(doc.push_row("trackers"), 2);
    assert_eq!(doc.row_count("trackers"), 3);
    doc.remove_row("trackers", 0);
    assert_eq!(doc.row_count("trackers"), 2);
    assert_eq!(text_at(&doc, "trackers.0.id"), Some("aither"));
    assert_eq!(doc.try_push_row("arr"), Some(0));
    doc.remove_row("arr", 0);
    assert_eq!(doc.row_count("arr"), 0);
    doc.remove_row("server", 7);
    assert_eq!(text_at(&doc, "server.bind_address"), Some("0.0.0.0:9899"));
    assert!(doc.writable());
    assert_eq!(doc.path(), "/etc/seedmedic/config.toml");
}

fn refused(action: SaveAction) -> DocumentError {
    match action {
        SaveAction::Finish(Err(error)) => error,
        _ => panic!("not refused"),
    }
}

#[test]
fn an_unparseable_document_is_refused_at_once() {
    let error = ConfigDocument::read(
        "config.toml",
        Ok(Some("not valid toml =====".to_owned())),
        None,
        None,
        true,
    )
    .err()
    .expect("refused");
    assert!(error.message().starts_with("cannot parse config.toml: "));
    let missing = ConfigDocument::read("config.toml", Ok(None), None, None, true)
        .ok()
        .expect("a fresh install has none yet");
    assert_eq!(missing.text(), "");
    let unreadable = ConfigDocument::read("config.toml", Err("denied".to_owned()), None, None, true)
        .err()
        .expect("refused");
    assert_eq!(unreadable.message(), "cannot read config.toml: denied");
}

#[test]
fn a_save_backs_up_writes_aside_and_renames() {
    let (save, action) = document(true, true).save();
    assert!(matches!(action, SaveAction::Inspect));
    let (save, action) = save.next(SaveEvent::Inspected(Ok(stamp(9)), Ok(SAMPLE.to_owned())));
    assert!(
        matches!(action, SaveAction::BackUp(path) if path == "/etc/seedmedic/config.toml.bak")
    );
    let (save, action) = save.next(SaveEvent::BackedUp(Ok(())));
    match action {
        SaveAction::WriteTemp { path, text } => {
            assert_eq!(path, "/etc/seedmedic/.config.toml.tmp");
            assert_eq!(text, SAMPLE);
        }
        _ => panic!("unexpected action"),
    }
    let (save, action) = save.next(SaveEvent::TempWritten(Ok(())));
    assert!(matches!(action, SaveAction::SetMode { mode: 0o640, .. }));
    let (save, action) = save.next(SaveEvent::ModeSet(Ok(())));
    assert!(
        matches!(action, SaveAction::Rename { to, .. } if to == "/etc/seedmedic/config.toml")
    );
    let (_, action) = save.next(SaveEvent::Renamed(Ok(())));
    assert!(matches!(
        action,
        SaveAction::Finish(Ok(SaveOutcome::Renamed))
    ));
}

#[test]
fn a_save_that_cannot_rename_writes_in_place() {
    let fresh = ConfigDocument::read("config.toml", Ok(None), None, None, true)
        .ok()
        .expect("parses");
    let (save, action) = fresh.save();
    assert!(matches!(action, SaveAction::WriteTemp { path, .. } if path == "./.config.toml.tmp"));
    let (save, _) = save.next(SaveEvent::TempWritten(Ok(())));
    let (save, _) = save.next(SaveEvent::ModeSet(Ok(())));
    let (save, action) = save.next(SaveEvent::Renamed(Err("busy".to_owned())));
    assert!(matches!(
        action,
        SaveAction::WriteInPlace { mode: 0o600, .. }
    ));
    let (save, action) = save.next(SaveEvent::WrittenInPlace(Ok(())));
    assert!(matches!(action, SaveAction::RemoveTemp(_)));
    let (_, action) = save.next(SaveEvent::TempRemoved);
    assert!(matches!(
        action,
        SaveAction::Finish(Ok(SaveOutcome::WrittenInPlace))
    ));
}

#[test]
fn an_external_edit_between_read_and_save_is_refused() {
    let (save, _) = document(true, true).save();
    let (_, action) = save.next(SaveEvent::Inspected(
        Ok(stamp(10)),
        Ok(format!("{SAMPLE}\n# edited\n")),
    ));
    assert!(matches!(refused(action), DocumentError::ExternalEdit { .. }));
}

#[test]
fn a_now_unparseable_file_is_refused_rather_than_overwritten() {
    let (save, _) = document(true, true).save();
    let (_, action) = save.next(SaveEvent::Inspected(
        Ok(stamp(9)),
        Ok("not valid toml =====".to_owned()),
    ));
    assert!(matches!(
        refused(action),
        DocumentError::NowUnparseable { .. }
    ));
}

#[test]
fn a_read_only_document_is_refused_up_front() {
    let (_, action) = document(true, false).save();
    assert!(matches!(refused(action), DocumentError::NotWritable { .. }));
    assert!(!probe_writable(Some(false), true));
    assert!(!probe_writable(Some(true), false));
    assert!(probe_writable(None, true));
}

#[test]
fn a_save_that_fails_to_write_names_the_file() {
    let (save, _) = document(true, true).save();
    let (save, _) = save.next(SaveEvent::Inspected(Ok(stamp(9)), Ok(SAMPLE.to_owned())));
    let (_, action) = save.next(SaveEvent::BackedUp(Err("full".to_owned())));
    assert_eq!(
        refused(action).message(),
        "cannot write /etc/seedmedic/config.toml.bak: full"
    );
}
