//! qBittorrent WebUI adapter. Not implemented: every method says so.

use vstd::prelude::*;

use crate::not_implemented::NotImplemented;
use crate::seeding::{AddTorrent, ClientError, ClientSummary, TorrentStatus};
use crate::torrent::InfoHash;

verus! {

/// Where the missing adapter is described.
pub const TODO: &'static str = "docs/todos/0007-qbittorrent-adapter.md";

#[derive(Debug, PartialEq, Eq)]
pub struct QBittorrentClient {
    pub base_url: String,
    pub category: Option<String>,
}

/// The error says that the adapter is a stub.
pub open spec fn unimplemented_adapter(error: ClientError) -> bool {
    error matches ClientError::NotImplemented(details) && details.adapter@ == "seeding::adapters::qbittorrent"@
        && details.todo@ == TODO@
}

fn missing() -> (r: ClientError)
    ensures
        unimplemented_adapter(r),
{
    ClientError::NotImplemented(NotImplemented::new("seeding::adapters::qbittorrent", TODO))
}

impl QBittorrentClient {
    pub fn new(base_url: String, category: Option<String>) -> (r: QBittorrentClient)
        ensures
            r.base_url == base_url,
            r.category == category,
    {
        QBittorrentClient { base_url, category }
    }

    pub fn add_paused(&self, _request: &AddTorrent) -> (r: Result<(), ClientError>)
        ensures
            r matches Err(error) && unimplemented_adapter(error),
    {
        Err(missing())
    }

    pub fn status(&self, _info_hash: InfoHash) -> (r: Result<Option<TorrentStatus>, ClientError>)
        ensures
            r matches Err(error) && unimplemented_adapter(error),
    {
        Err(missing())
    }

    pub fn recheck(&self, _info_hash: InfoHash) -> (r: Result<(), ClientError>)
        ensures
            r matches Err(error) && unimplemented_adapter(error),
    {
        Err(missing())
    }

    pub fn resume(&self, _info_hash: InfoHash) -> (r: Result<(), ClientError>)
        ensures
            r matches Err(error) && unimplemented_adapter(error),
    {
        Err(missing())
    }

    pub fn remove(&self, _info_hash: InfoHash, _delete_files: bool) -> (r: Result<(), ClientError>)
        ensures
            r matches Err(error) && unimplemented_adapter(error),
    {
        Err(missing())
    }

    pub fn summary(&self) -> (r: Result<ClientSummary, ClientError>)
        ensures
            r matches Err(error) && unimplemented_adapter(error),
    {
        Err(missing())
    }
}

} // verus!
