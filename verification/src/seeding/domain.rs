//! What the download client says about a torrent.

use vstd::prelude::*;

use crate::json::{Doc, Json};
use crate::torrent::{InfoHash, SafeRelativePath};

verus! {

/// What the download client says a torrent is doing.
#[derive(Clone, Copy, Debug, PartialEq, Eq, Structural)]
pub enum ClientTorrentState {
    Paused,
    Checking,
    /// Actively downloading, which for a repair means the data was not
    /// complete and the client is now fetching the rest from peers.
    Downloading,
    Seeding,
    Errored,
}

impl ClientTorrentState {
    /// The name written to the audit trail.
    pub open spec fn name(self) -> Seq<char> {
        match self {
            ClientTorrentState::Paused => "paused"@,
            ClientTorrentState::Checking => "checking"@,
            ClientTorrentState::Downloading => "downloading"@,
            ClientTorrentState::Seeding => "seeding"@,
            ClientTorrentState::Errored => "errored"@,
        }
    }

    pub fn as_str(self) -> (r: &'static str)
        ensures
            r@ == self.name(),
    {
        match self {
            ClientTorrentState::Paused => "paused",
            ClientTorrentState::Checking => "checking",
            ClientTorrentState::Downloading => "downloading",
            ClientTorrentState::Seeding => "seeding",
            ClientTorrentState::Errored => "errored",
        }
    }
}

/// How much of the torrent the client can account for on disk.
///
/// Not a fraction on its own: the difference between "all of it" and "99.9% of
/// it" is the difference between a safe resume and writing into the user's
/// library.
#[derive(Clone, Copy, Debug, PartialEq, Eq, Structural)]
pub enum DataCompleteness {
    Complete,
    /// The fraction, by the bits of its IEEE 754 double.
    Partial { ratio_bits: u64 },
}

/// The bits of the double 1.0.
pub const WHOLE_BITS: u64 = 0x3ff0_0000_0000_0000;

impl DataCompleteness {
    pub fn is_complete(self) -> (r: bool)
        ensures
            r == (self is Complete),
    {
        matches!(self, DataCompleteness::Complete)
    }

    /// The fraction complete: one for a complete torrent.
    pub open spec fn spec_ratio_bits(self) -> u64 {
        match self {
            DataCompleteness::Complete => WHOLE_BITS,
            DataCompleteness::Partial { ratio_bits } => ratio_bits,
        }
    }

    /// The bits of the fraction complete, so callers that just want "how much
    /// of this file" do not have to match.
    pub fn ratio_bits(self) -> (r: u64)
        ensures
            r == self.spec_ratio_bits(),
    {
        match self {
            DataCompleteness::Complete => WHOLE_BITS,
            DataCompleteness::Partial { ratio_bits } => ratio_bits,
        }
    }

    /// What the audit trail says of it.
    pub open spec fn doc(self) -> Doc {
        match self {
            DataCompleteness::Complete => crate::json::fact(
                "completeness"@,
                Doc::Text("complete"@),
            ),
            DataCompleteness::Partial { ratio_bits } => crate::json::fact(
                "completeness"@,
                Doc::Text("partial"@),
            ).with("ratio"@, Doc::Ratio(ratio_bits)),
        }
    }

    pub fn to_json(self) -> (r: Json)
        ensures
            r.doc() == self.doc(),
            r is Object,
    {
        match self {
            DataCompleteness::Complete => Json::fact("completeness", Json::text("complete")),
            DataCompleteness::Partial { ratio_bits } => Json::fact(
                "completeness",
                Json::text("partial"),
            ).with("ratio", Json::Ratio(ratio_bits)),
        }
    }
}

/// How much of one file within a torrent the client can account for.
///
/// Turns a single torrent-wide ratio into the detail an operator actually
/// needs: which file is the mismatch, not just that one exists.
#[derive(Debug, PartialEq, Eq)]
pub struct FileProgress {
    pub torrent_path: SafeRelativePath,
    pub completeness: DataCompleteness,
}

impl Clone for FileProgress {
    fn clone(&self) -> (r: FileProgress)
        ensures
            r == *self,
    {
        FileProgress {
            torrent_path: self.torrent_path.clone(),
            completeness: self.completeness,
        }
    }
}

impl FileProgress {
    /// What the audit trail says of it.
    pub open spec fn doc(self) -> Doc {
        crate::json::fact("torrent_path"@, Doc::Text(self.torrent_path@)).with(
            "completeness"@,
            self.completeness.doc(),
        )
    }

    pub fn to_json(&self) -> (r: Json)
        ensures
            r.doc() == self.doc(),
    {
        Json::fact("torrent_path", Json::text(self.torrent_path.as_str())).with(
            "completeness",
            self.completeness.to_json(),
        )
    }
}

#[derive(Debug, PartialEq, Eq)]
pub struct TorrentStatus {
    pub state: ClientTorrentState,
    pub completeness: DataCompleteness,
    pub save_path: String,
    /// `None` when the client did not offer a breakdown, or a check has not
    /// run yet. The resume policy never depends on this: absent per-file data
    /// must leave it exactly as conservative as it already is.
    pub files: Option<Vec<FileProgress>>,
    /// `true` when a check is queued but has not started: the client is not
    /// making progress, so polling it as if it were requires a longer
    /// interval. Only meaningful when `state` is `Checking`.
    pub queued: bool,
    /// Whatever the client can offer about why `state` is `Errored`. Not every
    /// adapter can populate this.
    pub message: Option<String>,
    /// Total bytes uploaded for this torrent, as the client accounts for it.
    /// Telemetry only: nothing but the tracker's own clearance ever completes
    /// a repair.
    pub uploaded_bytes: u64,
    /// How long the client has been seeding this torrent, if it tracks that.
    pub seeding_seconds: Option<u64>,
}

/// What the audit trail says of a per-file breakdown.
pub open spec fn progress_doc(files: Option<Vec<FileProgress>>) -> Doc {
    match files {
        None => Doc::Null,
        Some(list) => Doc::List(list@.map_values(|f: FileProgress| f.doc())),
    }
}

/// The per-file breakdown, for the audit trail.
pub fn progress_json(files: &Option<Vec<FileProgress>>) -> (r: Json)
    ensures
        r.doc() == progress_doc(*files),
{
    match files {
        None => Json::Null,
        Some(list) => {
            let mut out: Vec<Json> = Vec::new();
            let mut i: usize = 0;
            while i < list.len()
                invariant
                    i <= list@.len(),
                    crate::json::docs(out@) == list@.take(i as int).map_values(
                        |f: FileProgress| f.doc(),
                    ),
                decreases list@.len() - i,
            {
                let ghost before = crate::json::docs(out@);
                let item = list[i].to_json();
                let ghost added = item.doc();
                out.push(item);
                proof {
                    assert(crate::json::docs(out@) =~= before.push(added));
                    assert(list@.take(i + 1).map_values(|f: FileProgress| f.doc()) =~= list@.take(
                        i as int,
                    ).map_values(|f: FileProgress| f.doc()).push(added));
                }
                i += 1;
            }
            assert(list@.take(i as int) =~= list@);
            Json::list(out)
        },
    }
}

/// A torrent to hand to the client, always paused.
///
/// There is no way to add a started one: nothing may begin seeding before the
/// recheck and the resume policy have both had their say.
#[derive(Debug, PartialEq, Eq)]
pub struct AddTorrent {
    pub info_hash: InfoHash,
    pub torrent_file: Vec<u8>,
    pub save_path: String,
    pub category: Option<String>,
}

} // verus!
