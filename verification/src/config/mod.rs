//! Configuration and policy.
//!
//! One file, validated once at startup, turned into plain values the rest of
//! the system can rely on. Anything that could make SeedMedic unsafe is
//! rejected here rather than defended against everywhere else.

pub mod document;
pub mod keys;
pub mod load;
pub mod notes;
pub mod problems;
pub mod secret;
pub mod settings;
pub mod summary;
pub mod toml_items;
pub mod tree;
pub mod write;

pub use problems::{Build, ConfigError, OnDisk, Problem, Severity};
pub use secret::{Secret, SecretSource};
pub use document::ConfigDocument;
pub use write::{DocumentError, SaveOutcome};
pub use settings::{
    ArrConfig, ArrKind, Config, DatabaseConfig, DownloadClientConfig, DownloadClientKind,
    LibraryConfig, MetricsConfig, NotificationsConfig, PathMappingConfig, PolicyConfig,
    ServerConfig, StagingConfig, TokenPlacement, TrackerConfig, TrackerKind, WorkerSettings,
};
