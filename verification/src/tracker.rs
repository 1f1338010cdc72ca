//! What a private tracker says about hit-and-runs.

use vstd::prelude::*;
use vstd::string::*;

use crate::clock::Timestamp;
use crate::not_implemented::NotImplemented;
use crate::text::same;
use crate::torrent::InfoHash;

verus! {

/// The configured name of a tracker.
#[derive(Debug, PartialEq, Eq, Hash, PartialOrd, Ord)]
pub struct TrackerId(pub String);

impl View for TrackerId {
    type V = Seq<char>;

    open spec fn view(&self) -> Seq<char> {
        self.0@
    }
}

impl Clone for TrackerId {
    fn clone(&self) -> (r: TrackerId)
        ensures
            r == *self,
    {
        TrackerId(self.0.clone())
    }
}

impl TrackerId {
    pub fn new(id: &str) -> (r: TrackerId)
        ensures
            r@ == id@,
    {
        TrackerId(id.to_owned())
    }

    pub fn as_str(&self) -> (r: &str)
        ensures
            r@ == self@,
    {
        self.0.as_str()
    }

    /// Whether two names are the same name.
    pub fn is(&self, other: &TrackerId) -> (r: bool)
        ensures
            r == (self@ == other@),
    {
        same(self.0.as_str(), other.0.as_str())
    }
}

/// A tracker's own name for a torrent.
#[derive(Debug, PartialEq, Eq, Hash, PartialOrd, Ord)]
pub struct TrackerTorrentId(pub String);

impl View for TrackerTorrentId {
    type V = Seq<char>;

    open spec fn view(&self) -> Seq<char> {
        self.0@
    }
}

impl Clone for TrackerTorrentId {
    fn clone(&self) -> (r: TrackerTorrentId)
        ensures
            r == *self,
    {
        TrackerTorrentId(self.0.clone())
    }
}

impl TrackerTorrentId {
    pub fn new(id: &str) -> (r: TrackerTorrentId)
        ensures
            r@ == id@,
    {
        TrackerTorrentId(id.to_owned())
    }

    pub fn as_str(&self) -> (r: &str)
        ensures
            r@ == self@,
    {
        self.0.as_str()
    }
}

/// A hit-and-run warning as a tracker lists it.
#[derive(Debug, PartialEq, Eq)]
pub struct HitAndRun {
    pub tracker: TrackerId,
    pub torrent_id: TrackerTorrentId,
    pub torrent_name: String,
    pub info_hash: Option<InfoHash>,
    pub size_bytes: u64,
    pub deadline: Option<Timestamp>,
    pub observed_at: Timestamp,
}

/// What a tracker says about one warning.
#[derive(Clone, Copy, Debug, PartialEq, Eq, Structural)]
pub enum HitAndRunStatus {
    /// Still outstanding.
    Active,
    /// Gone.
    Cleared,
    /// The answer could not be interpreted.
    Unknown,
}

#[derive(Debug, PartialEq, Eq)]
pub enum TrackerError {
    NotImplemented(NotImplemented),
    /// tracker request failed
    Transport(String),
    /// tracker returned data we cannot interpret
    Protocol(String),
    /// tracker rejected our credentials
    Unauthorized,
}

impl TrackerError {
    /// The sentence shown for it.
    pub open spec fn sentence(self) -> Seq<char> {
        match self {
            TrackerError::NotImplemented(details) => details.sentence(),
            TrackerError::Transport(why) => "tracker request failed: "@ + why@,
            TrackerError::Protocol(why) => "tracker returned data we cannot interpret: "@ + why@,
            TrackerError::Unauthorized => "tracker rejected our credentials"@,
        }
    }

    pub fn message(&self) -> (r: String)
        ensures
            r@ == self.sentence(),
    {
        match self {
            TrackerError::NotImplemented(details) => details.message(),
            TrackerError::Transport(why) => {
                let mut out = "tracker request failed: ".to_owned();
                out.append(why.as_str());
                out
            },
            TrackerError::Protocol(why) => {
                let mut out = "tracker returned data we cannot interpret: ".to_owned();
                out.append(why.as_str());
                out
            },
            TrackerError::Unauthorized => "tracker rejected our credentials".to_owned(),
        }
    }

    /// Whether asking again may help.
    pub fn is_transient(&self) -> (r: bool)
        ensures
            r == (self is Transport || self is Protocol),
    {
        matches!(self, TrackerError::Transport(_) | TrackerError::Protocol(_))
    }
}

} // verus!
