//! Torrent metadata: what a `.torrent` declares, with every path checked.

pub mod adapters;
pub mod domain;
pub mod path;
pub mod ports;

pub use domain::{InfoHash, InfoHashError, PieceHash, TorrentFile, TorrentMetadata};
pub use path::{PathRejection, SafeRelativePath};
pub use ports::InspectError;
