//! The settings, each with its default.

use vstd::prelude::*;

use super::secret::Secret;
use crate::clock::Duration;
pub use crate::library::adapters::arr::ArrKind;
use crate::library::MatchConfidence;
use crate::repair::policy::{AutoResume, MaterializationPolicy, SafetyPolicy};
use crate::repair::worker::WorkerConfig;

verus! {

/// Where an operator is pointed to configure an unconfigured setting.
pub const SETTINGS_URL: &'static str = "/settings";

/// Where to look when no other path is given.
pub const DEFAULT_PATH: &'static str = "config.toml";

/// The URL of a service that is not configured, as URLs are written.
pub const PLACEHOLDER_URL: &'static str = "http://localhost/";

pub struct Config {
    pub server: ServerConfig,
    pub database: DatabaseConfig,
    pub staging: StagingConfig,
    pub library: LibraryConfig,
    pub policy: PolicyConfig,
    pub worker: WorkerSettings,
    pub trackers: Vec<TrackerConfig>,
    /// `None` means no download client is configured yet: a fresh install, not
    /// a mistake. `Some` must be complete.
    pub download_client: Option<DownloadClientConfig>,
    pub arr: Vec<ArrConfig>,
    pub metrics: MetricsConfig,
    pub notifications: NotificationsConfig,
}

impl Config {
    /// Every setting has its default: nothing is configured.
    pub open spec fn is_default(self) -> bool {
        &&& self.server.is_default()
        &&& self.database.path@ == "data/seedmedic.db"@
        &&& self.staging.is_default()
        &&& self.library.roots@.len() == 0
        &&& self.policy.is_default()
        &&& self.worker.is_default()
        &&& self.trackers@.len() == 0
        &&& self.download_client is None
        &&& self.arr@.len() == 0
        &&& !self.metrics.enabled
        &&& self.notifications.is_default()
    }
}

impl Default for Config {
    fn default() -> (r: Config)
        ensures
            r.is_default(),
    {
        Config {
            server: ServerConfig::default(),
            database: DatabaseConfig::default(),
            staging: StagingConfig::default(),
            library: LibraryConfig::default(),
            policy: PolicyConfig::default(),
            worker: WorkerSettings::default(),
            trackers: Vec::new(),
            download_client: None,
            arr: Vec::new(),
            metrics: MetricsConfig::default(),
            notifications: NotificationsConfig::default(),
        }
    }
}

/// Off by default: most self-hosted users never scrape this.
#[derive(Clone, Copy, Debug, PartialEq, Eq, Structural)]
pub struct MetricsConfig {
    pub enabled: bool,
}

impl Default for MetricsConfig {
    fn default() -> (r: MetricsConfig)
        ensures
            !r.enabled,
    {
        MetricsConfig { enabled: false }
    }
}

/// A generic webhook for: parked for review, completed, tracker unreachable
/// for a while. Off by default: an unset `webhook_url` disables notifications
/// entirely.
#[derive(Debug, PartialEq, Eq)]
pub struct NotificationsConfig {
    pub webhook_url: Option<String>,
    pub tracker_unreachable_after_seconds: u64,
}

impl NotificationsConfig {
    pub open spec fn is_default(self) -> bool {
        self.webhook_url is None && self.tracker_unreachable_after_seconds == 1800
    }
}

impl Default for NotificationsConfig {
    fn default() -> (r: NotificationsConfig)
        ensures
            r.is_default(),
    {
        NotificationsConfig { webhook_url: None, tracker_unreachable_after_seconds: 1800 }
    }
}

pub struct ServerConfig {
    pub bind_address: String,
    /// If set, every request must present it or be rejected. The web UI has no
    /// accounts or roles: this is a single shared secret, not a login system.
    pub auth_token: Secret,
    pub auth_token_file: Option<String>,
}

impl ServerConfig {
    pub open spec fn is_default(self) -> bool {
        &&& self.bind_address@ == "0.0.0.0:9899"@
        &&& self.auth_token.hidden().len() == 0
        &&& self.auth_token.origin() is Unset
        &&& self.auth_token_file is None
    }
}

impl Default for ServerConfig {
    fn default() -> (r: ServerConfig)
        ensures
            r.is_default(),
    {
        ServerConfig {
            bind_address: "0.0.0.0:9899".to_owned(),
            auth_token: Secret::default(),
            auth_token_file: None,
        }
    }
}

#[derive(Debug, PartialEq, Eq)]
pub struct DatabaseConfig {
    pub path: String,
}

impl Default for DatabaseConfig {
    fn default() -> (r: DatabaseConfig)
        ensures
            r.path@ == "data/seedmedic.db"@,
    {
        DatabaseConfig { path: "data/seedmedic.db".to_owned() }
    }
}

#[derive(Debug, PartialEq, Eq)]
pub struct StagingConfig {
    /// Must be absolute, and must not overlap any library root.
    pub root: String,
    /// Free space to keep on the staging filesystem beyond what a plan needs.
    /// A plan that would eat into this margin parks for review instead of
    /// writing.
    pub min_free_bytes: u64,
}

impl StagingConfig {
    pub open spec fn is_default(self) -> bool {
        self.root@.len() == 0 && self.min_free_bytes == 1_073_741_824
    }
}

impl Default for StagingConfig {
    fn default() -> (r: StagingConfig)
        ensures
            r.is_default(),
    {
        StagingConfig { root: String::new(), min_free_bytes: 1_073_741_824 }
    }
}

#[derive(Debug, PartialEq, Eq)]
pub struct LibraryConfig {
    /// Media library roots, scanned as a fallback candidate source and used to
    /// prove the staging area is somewhere else.
    pub roots: Vec<String>,
}

impl Default for LibraryConfig {
    fn default() -> (r: LibraryConfig)
        ensures
            r.roots@.len() == 0,
    {
        LibraryConfig { roots: Vec::new() }
    }
}

#[derive(Clone, Copy, Debug, PartialEq, Eq, Structural)]
pub struct PolicyConfig {
    pub auto_resume: AutoResume,
    pub min_match_confidence: MatchConfidence,
    /// Pieces hashed per file to confirm a match. `0` disables verification.
    pub verification_pieces: usize,
    pub prefer_reflink: bool,
    /// Hardlinks make the staged file *be* the library file. Off by default.
    pub allow_hardlink: bool,
    pub allow_copy: bool,
    pub max_attempts: u32,
    pub retry_base_seconds: u64,
    pub retry_max_seconds: u64,
    /// Floor of the adaptive recheck poll backoff.
    pub recheck_poll_seconds: u64,
    /// Cap of the adaptive recheck poll backoff, and the interval used while
    /// a check is queued rather than running.
    pub recheck_poll_max_seconds: u64,
    /// A recheck running longer than this parks the job for review instead of
    /// polling forever.
    pub recheck_timeout_seconds: u64,
    pub tracker_poll_seconds: u64,
    /// Floor of the adaptive tracker-poll backoff as a hit-and-run deadline
    /// approaches: a private tracker still bans for hammering.
    pub tracker_poll_min_seconds: u64,
    /// Consecutive tracker answers that could not be interpreted before a
    /// seeding job parks for review instead of polling forever.
    pub max_consecutive_unknown_tracker_status: u32,
}

/// The settings say the same as the policy.
pub open spec fn same_policy(settings: PolicyConfig, policy: SafetyPolicy) -> bool {
    &&& policy.auto_resume == settings.auto_resume
    &&& policy.min_match_confidence == settings.min_match_confidence
    &&& policy.verification_pieces == settings.verification_pieces
    &&& policy.materialization.prefer_reflink == settings.prefer_reflink
    &&& policy.materialization.allow_hardlink == settings.allow_hardlink
    &&& policy.materialization.allow_copy == settings.allow_copy
    &&& policy.max_attempts == settings.max_attempts
    &&& policy.retry_base_delay@ == crate::clock::secs(settings.retry_base_seconds as int)
    &&& policy.retry_max_delay@ == crate::clock::secs(settings.retry_max_seconds as int)
    &&& policy.recheck_poll_interval@ == crate::clock::secs(settings.recheck_poll_seconds as int)
    &&& policy.recheck_poll_max_interval@ == crate::clock::secs(
        settings.recheck_poll_max_seconds as int,
    )
    &&& policy.recheck_timeout@ == crate::clock::secs(settings.recheck_timeout_seconds as int)
    &&& policy.tracker_poll_interval@ == crate::clock::secs(settings.tracker_poll_seconds as int)
    &&& policy.tracker_poll_min_interval@ == crate::clock::secs(
        settings.tracker_poll_min_seconds as int,
    )
    &&& policy.max_consecutive_unknown_tracker_status
        == settings.max_consecutive_unknown_tracker_status
}

impl PolicyConfig {
    /// The settings of the default policy.
    pub open spec fn is_default(self) -> bool {
        exists|policy: SafetyPolicy| #[trigger] policy.is_default() && same_policy(self, policy)
    }

    pub fn to_policy(&self) -> (r: SafetyPolicy)
        ensures
            same_policy(*self, r),
    {
        SafetyPolicy {
            auto_resume: self.auto_resume,
            min_match_confidence: self.min_match_confidence,
            verification_pieces: self.verification_pieces,
            materialization: MaterializationPolicy {
                prefer_reflink: self.prefer_reflink,
                allow_hardlink: self.allow_hardlink,
                allow_copy: self.allow_copy,
            },
            max_attempts: self.max_attempts,
            retry_base_delay: Duration::from_secs(self.retry_base_seconds),
            retry_max_delay: Duration::from_secs(self.retry_max_seconds),
            recheck_poll_interval: Duration::from_secs(self.recheck_poll_seconds),
            recheck_poll_max_interval: Duration::from_secs(self.recheck_poll_max_seconds),
            recheck_timeout: Duration::from_secs(self.recheck_timeout_seconds),
            tracker_poll_interval: Duration::from_secs(self.tracker_poll_seconds),
            tracker_poll_min_interval: Duration::from_secs(self.tracker_poll_min_seconds),
            max_consecutive_unknown_tracker_status: self.max_consecutive_unknown_tracker_status,
        }
    }
}

impl Default for PolicyConfig {
    fn default() -> (r: PolicyConfig)
        ensures
            r.is_default(),
    {
        let policy = SafetyPolicy::default();
        let r = PolicyConfig {
            auto_resume: policy.auto_resume,
            min_match_confidence: policy.min_match_confidence,
            verification_pieces: policy.verification_pieces,
            prefer_reflink: policy.materialization.prefer_reflink,
            allow_hardlink: policy.materialization.allow_hardlink,
            allow_copy: policy.materialization.allow_copy,
            max_attempts: policy.max_attempts,
            retry_base_seconds: policy.retry_base_delay.as_secs(),
            retry_max_seconds: policy.retry_max_delay.as_secs(),
            recheck_poll_seconds: policy.recheck_poll_interval.as_secs(),
            recheck_poll_max_seconds: policy.recheck_poll_max_interval.as_secs(),
            recheck_timeout_seconds: policy.recheck_timeout.as_secs(),
            tracker_poll_seconds: policy.tracker_poll_interval.as_secs(),
            tracker_poll_min_seconds: policy.tracker_poll_min_interval.as_secs(),
            max_consecutive_unknown_tracker_status: policy.max_consecutive_unknown_tracker_status,
        };
        assert(policy.is_default() && same_policy(r, policy));
        r
    }
}

#[derive(Debug, PartialEq, Eq)]
pub struct WorkerSettings {
    pub owner: String,
    pub lease_seconds: u64,
    pub batch_size: i64,
    pub poll_interval_seconds: u64,
    pub discovery_interval_seconds: u64,
}

impl WorkerSettings {
    pub open spec fn is_default(self) -> bool {
        &&& self.owner@ == "seedmedic"@
        &&& self.lease_seconds == 300
        &&& self.batch_size == 4
        &&& self.poll_interval_seconds == 10
        &&& self.discovery_interval_seconds == 900
    }

    pub fn to_worker_config(&self) -> (r: WorkerConfig)
        ensures
            r.owner@ == self.owner@,
            r.lease@ == crate::clock::secs(self.lease_seconds as int),
            r.batch_size == self.batch_size,
            r.poll_interval@ == crate::clock::secs(self.poll_interval_seconds as int),
            r.discovery_interval@ == crate::clock::secs(self.discovery_interval_seconds as int),
    {
        WorkerConfig {
            owner: self.owner.clone(),
            lease: Duration::from_secs(self.lease_seconds),
            batch_size: self.batch_size,
            poll_interval: Duration::from_secs(self.poll_interval_seconds),
            discovery_interval: Duration::from_secs(self.discovery_interval_seconds),
        }
    }
}

impl Default for WorkerSettings {
    fn default() -> (r: WorkerSettings)
        ensures
            r.is_default(),
    {
        let worker = WorkerConfig::default();
        WorkerSettings {
            owner: worker.owner,
            lease_seconds: worker.lease.as_secs(),
            batch_size: worker.batch_size,
            poll_interval_seconds: worker.poll_interval.as_secs(),
            discovery_interval_seconds: worker.discovery_interval.as_secs(),
        }
    }
}

#[derive(Clone, Copy, Debug, PartialEq, Eq, Structural)]
pub enum TrackerKind {
    Unit3d,
    /// In-memory tracker with two demo warnings. Only in builds with fakes.
    Fake,
}

/// Where the tracker's API key goes. Instances in the family disagree.
#[derive(Clone, Copy, Debug, PartialEq, Eq, Structural)]
pub enum TokenPlacement {
    /// `Authorization: Bearer <token>`.
    Header,
    /// `?api_token=<token>`, appended to every request.
    Query,
}

impl Default for TokenPlacement {
    fn default() -> (r: TokenPlacement)
        ensures
            r is Header,
    {
        TokenPlacement::Header
    }
}

pub struct TrackerConfig {
    /// Stable key repair jobs are filed under. Changing it orphans existing
    /// jobs.
    pub id: String,
    pub kind: TrackerKind,
    /// As URLs are written.
    pub base_url: String,
    pub api_key: Secret,
    /// Read `api_key` from a file instead, such as a mounted secret.
    pub api_key_file: Option<String>,
    pub token_placement: TokenPlacement,
}

#[derive(Clone, Copy, Debug, PartialEq, Eq, Structural)]
pub enum DownloadClientKind {
    QBittorrent,
    /// In-memory client. Only in builds with fakes.
    Fake,
}

impl Default for DownloadClientKind {
    fn default() -> (r: DownloadClientKind)
        ensures
            r is QBittorrent,
    {
        DownloadClientKind::QBittorrent
    }
}

pub struct DownloadClientConfig {
    pub kind: DownloadClientKind,
    /// As URLs are written.
    pub base_url: String,
    pub username: String,
    pub password: Secret,
    /// Read `password` from a file instead.
    pub password_file: Option<String>,
    /// Category to file repaired torrents under, so they are recognisable.
    pub category: Option<String>,
}

impl Default for DownloadClientConfig {
    fn default() -> (r: DownloadClientConfig)
        ensures
            r.kind is QBittorrent,
            r.base_url@ == PLACEHOLDER_URL@,
            r.username@.len() == 0,
            r.password.hidden().len() == 0,
            r.password.origin() is Unset,
            r.password_file is None,
            r.category matches Some(category) && category@ == "seedmedic"@,
    {
        DownloadClientConfig {
            kind: DownloadClientKind::QBittorrent,
            base_url: PLACEHOLDER_URL.to_owned(),
            username: String::new(),
            password: Secret::default(),
            password_file: None,
            category: Some("seedmedic".to_owned()),
        }
    }
}

pub struct ArrConfig {
    pub kind: ArrKind,
    pub name: String,
    /// As URLs are written.
    pub base_url: String,
    pub api_key: Secret,
    /// Read `api_key` from a file instead.
    pub api_key_file: Option<String>,
    /// Rewrites paths the *arr reports (as its container sees them) to the
    /// paths SeedMedic sees. Per-instance, since two instances can run in
    /// containers with different mounts.
    pub path_mappings: Vec<PathMappingConfig>,
}

#[derive(Debug, PartialEq, Eq)]
pub struct PathMappingConfig {
    pub from: String,
    pub to: String,
}

/// A policy is as it is configured, with its times in seconds.
pub proof fn a_policy_is_as_configured(settings: PolicyConfig, policy: SafetyPolicy)
    requires
        same_policy(settings, policy),
    ensures
        policy.auto_resume == settings.auto_resume,
        policy.min_match_confidence == settings.min_match_confidence,
        policy.verification_pieces == settings.verification_pieces,
        policy.materialization.prefer_reflink == settings.prefer_reflink,
        policy.materialization.allow_hardlink == settings.allow_hardlink,
        policy.materialization.allow_copy == settings.allow_copy,
        policy.max_attempts == settings.max_attempts,
        policy.retry_base_delay@ == settings.retry_base_seconds * 1_000_000_000,
        policy.retry_max_delay@ == settings.retry_max_seconds * 1_000_000_000,
        policy.recheck_poll_interval@ == settings.recheck_poll_seconds * 1_000_000_000,
        policy.recheck_poll_max_interval@ == settings.recheck_poll_max_seconds * 1_000_000_000,
        policy.recheck_timeout@ == settings.recheck_timeout_seconds * 1_000_000_000,
        policy.tracker_poll_interval@ == settings.tracker_poll_seconds * 1_000_000_000,
        policy.tracker_poll_min_interval@ == settings.tracker_poll_min_seconds * 1_000_000_000,
        policy.max_consecutive_unknown_tracker_status
            == settings.max_consecutive_unknown_tracker_status,
{
}

/// What a fresh install starts with: nothing that could be repaired, nobody that
/// could get in by a token, and a policy that resumes nothing, makes no hardlinks
/// and gives up after five failures.
pub proof fn what_a_fresh_install_starts_with(config: Config)
    requires
        config.is_default(),
    ensures
        config.trackers@.len() == 0,
        config.arr@.len() == 0,
        config.download_client is None,
        config.library.roots@.len() == 0,
        config.staging.root@.len() == 0,
        config.staging.min_free_bytes == 1_073_741_824,
        config.server.bind_address@ == "0.0.0.0:9899"@,
        config.server.auth_token.hidden().len() == 0,
        config.database.path@ == "data/seedmedic.db"@,
        !config.metrics.enabled,
        config.notifications.webhook_url is None,
        config.notifications.tracker_unreachable_after_seconds == 1800,
        config.worker.owner@ == "seedmedic"@,
        config.worker.lease_seconds == 300,
        config.worker.batch_size == 4,
        config.worker.poll_interval_seconds == 10,
        config.worker.discovery_interval_seconds == 900,
        config.policy.auto_resume is Never,
        config.policy.min_match_confidence is Probable,
        config.policy.verification_pieces == 3,
        config.policy.prefer_reflink,
        config.policy.allow_copy,
        !config.policy.allow_hardlink,
        config.policy.max_attempts == 5,
        config.policy.retry_base_seconds == 30,
        config.policy.retry_max_seconds == 3600,
        config.policy.recheck_poll_seconds == 15,
        config.policy.recheck_poll_max_seconds == 300,
        config.policy.recheck_timeout_seconds == 14_400,
        config.policy.tracker_poll_seconds == 900,
        config.policy.tracker_poll_min_seconds == 60,
        config.policy.max_consecutive_unknown_tracker_status == 10,
{
}

} // verus!
