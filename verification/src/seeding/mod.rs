//! The download client that does the seeding.

pub mod adapters;
pub mod domain;
pub mod ports;

pub use domain::{AddTorrent, ClientTorrentState, DataCompleteness, FileProgress, TorrentStatus};
pub use ports::{ClientError, ClientSummary};
