//! Download clients.

pub mod fake;
pub mod qbittorrent;
pub mod unconfigured;
