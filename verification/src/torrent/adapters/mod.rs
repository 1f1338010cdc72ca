//! Readers of `.torrent` bytes.

pub mod bencode;
pub mod fake;
pub mod grammar;
pub mod reader;
