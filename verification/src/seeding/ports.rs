//! How a request to the download client can fail.

use vstd::prelude::*;
use vstd::string::*;

use crate::not_implemented::NotImplemented;

verus! {

#[derive(Debug, PartialEq, Eq)]
pub enum ClientError {
    NotImplemented(NotImplemented),
    /// download client request failed
    Transport(String),
    /// download client returned data we cannot interpret
    Protocol(String),
    /// download client rejected our credentials
    Unauthorized,
    /// download client rejected the torrent
    Rejected(String),
}

impl ClientError {
    /// The sentence shown for it.
    pub open spec fn sentence(self) -> Seq<char> {
        match self {
            ClientError::NotImplemented(details) => details.sentence(),
            ClientError::Transport(why) => "download client request failed: "@ + why@,
            ClientError::Protocol(why) =>
                "download client returned data we cannot interpret: "@ + why@,
            ClientError::Unauthorized => "download client rejected our credentials"@,
            ClientError::Rejected(why) => "download client rejected the torrent: "@ + why@,
        }
    }

    pub fn message(&self) -> (r: String)
        ensures
            r@ == self.sentence(),
    {
        match self {
            ClientError::NotImplemented(details) => details.message(),
            ClientError::Transport(why) => {
                let mut out = "download client request failed: ".to_owned();
                out.append(why.as_str());
                out
            },
            ClientError::Protocol(why) => {
                let mut out = "download client returned data we cannot interpret: ".to_owned();
                out.append(why.as_str());
                out
            },
            ClientError::Unauthorized => "download client rejected our credentials".to_owned(),
            ClientError::Rejected(why) => {
                let mut out = "download client rejected the torrent: ".to_owned();
                out.append(why.as_str());
                out
            },
        }
    }

    /// Whether asking again may help.
    pub fn is_transient(&self) -> (r: bool)
        ensures
            r == (self is Transport || self is Protocol),
    {
        matches!(self, ClientError::Transport(_) | ClientError::Protocol(_))
    }
}

/// A cheap reachability check for the diagnostics page: not tied to any one
/// torrent, so it doubles as "is the client even there at all".
#[derive(Clone, Copy, Debug, PartialEq, Eq, Structural)]
pub struct ClientSummary {
    pub torrent_count: usize,
}

} // verus!
