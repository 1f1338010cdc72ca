//! Stands in for the download client when `download_client` is unset.
//!
//! Every method fails loudly, so a repair that reaches seeding parks for review
//! naming the missing setting rather than pretending a client is there.

use vstd::prelude::*;

use crate::not_implemented::NotImplemented;
use crate::seeding::{AddTorrent, ClientError, ClientSummary, TorrentStatus};
use crate::torrent::InfoHash;

verus! {

/// What to do about it.
pub const TODO: &'static str = "set download_client \u{2014} see Settings \u{2192} Download client";

pub struct UnconfiguredClient;

/// The error names the missing setting.
pub open spec fn unconfigured(error: ClientError) -> bool {
    error matches ClientError::NotImplemented(details) && details.adapter@ == "download_client"@
        && details.todo@ == TODO@
}

fn missing() -> (r: ClientError)
    ensures
        unconfigured(r),
{
    ClientError::NotImplemented(NotImplemented::new("download_client", TODO))
}

impl UnconfiguredClient {
    pub fn add_paused(&self, _request: &AddTorrent) -> (r: Result<(), ClientError>)
        ensures
            r matches Err(error) && unconfigured(error),
    {
        Err(missing())
    }

    pub fn status(&self, _info_hash: InfoHash) -> (r: Result<Option<TorrentStatus>, ClientError>)
        ensures
            r matches Err(error) && unconfigured(error),
    {
        Err(missing())
    }

    pub fn recheck(&self, _info_hash: InfoHash) -> (r: Result<(), ClientError>)
        ensures
            r matches Err(error) && unconfigured(error),
    {
        Err(missing())
    }

    pub fn resume(&self, _info_hash: InfoHash) -> (r: Result<(), ClientError>)
        ensures
            r matches Err(error) && unconfigured(error),
    {
        Err(missing())
    }

    pub fn remove(&self, _info_hash: InfoHash, _delete_files: bool) -> (r: Result<(), ClientError>)
        ensures
            r matches Err(error) && unconfigured(error),
    {
        Err(missing())
    }

    pub fn summary(&self) -> (r: Result<ClientSummary, ClientError>)
        ensures
            r matches Err(error) && unconfigured(error),
    {
        Err(missing())
    }
}

} // verus!
