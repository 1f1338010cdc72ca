//! Inspector for the fake tracker's torrents.
//!
//! The fake tracker serves JSON instead of bencode; this adapter reads it back.
//! Paths and info-hashes still go through the same validating constructors as
//! real input, so a fake run exercises the real safety rules.

use vstd::prelude::*;
use vstd::string::*;

use crate::torrent::domain::{InfoHash, PieceHash, TorrentFile, TorrentMetadata};
use crate::torrent::path::SafeRelativePath;
use crate::torrent::ports::InspectError;

verus! {

/// A file as the fake tracker serves it.
#[derive(Debug, PartialEq, Eq)]
pub struct ServedFile {
    pub path: String,
    pub length: u64,
}

/// A torrent as the fake tracker serves it: nothing in it was checked yet.
#[derive(Debug, PartialEq, Eq)]
pub struct ServedTorrent {
    pub info_hash: String,
    pub name: String,
    pub piece_length: u64,
    pub files: Vec<ServedFile>,
    pub pieces: Vec<PieceHash>,
}

/// The metadata is what was served.
pub open spec fn serves(served: ServedTorrent, metadata: TorrentMetadata) -> bool {
    &&& metadata.info_hash@ == crate::torrent::domain::unhex(served.info_hash@)
    &&& metadata.name@ == served.name@
    &&& metadata.piece_length == served.piece_length
    &&& metadata.files@.len() == served.files@.len()
    &&& forall|i: int|
        0 <= i < served.files@.len() ==> (#[trigger] metadata.files@[i]).path@
            == served.files@[i].path@ && metadata.files@[i].length == served.files@[i].length
    &&& metadata.pieces@ == served.pieces@
}

/// Every path of the first files is safe.
pub open spec fn paths_are_safe(files: Seq<ServedFile>, count: int) -> bool {
    forall|i: int|
        0 <= i < count ==> crate::torrent::path::safe_path((#[trigger] files[i]).path@)
}

/// The info-hash is one, and every path is safe.
pub open spec fn is_sound(served: ServedTorrent) -> bool {
    &&& crate::torrent::domain::is_hash(served.info_hash@)
    &&& crate::torrent::path::safe_path(served.name@)
    &&& paths_are_safe(served.files@, served.files@.len() as int)
}

/// A path is refused, in those words.
pub open spec fn refused_as(path: Seq<char>, why: Seq<char>) -> bool {
    exists|rejection: crate::torrent::path::PathRejection|
        #[trigger] crate::torrent::path::path_rejected(path, rejection) && why
            == rejection.sentence()
}

/// What is said against a torrent: the first thing that is wrong with it.
pub open spec fn fault(served: ServedTorrent, why: Seq<char>) -> bool {
    if !crate::torrent::domain::is_hash(served.info_hash@) {
        why == crate::torrent::domain::hash_rejected(served.info_hash@).sentence()
    } else if !crate::torrent::path::safe_path(served.name@) {
        refused_as(served.name@, why)
    } else {
        exists|i: int|
            0 <= i < served.files@.len() && paths_are_safe(served.files@, i) && refused_as(
                (#[trigger] served.files@[i]).path@,
                why,
            )
    }
}

fn read_path(text: &str) -> (r: Result<SafeRelativePath, String>)
    ensures
        match r {
            Ok(path) => path@ == text@ && crate::torrent::path::safe_path(text@),
            Err(why) => !crate::torrent::path::safe_path(text@) && refused_as(text@, why@),
        },
{
    match SafeRelativePath::parse(text) {
        Ok(path) => Ok(path),
        Err(rejection) => {
            assert(crate::torrent::path::path_rejected(text@, rejection));
            Err(rejection.message())
        },
    }
}

#[derive(Clone, Copy, Debug)]
pub struct FakeInspector;

impl FakeInspector {
    /// Metadata the way the fake tracker serves it.
    pub fn encode(metadata: &TorrentMetadata) -> (r: ServedTorrent)
        ensures
            serves(r, *metadata),
            is_sound(r),
    {
        let mut files: Vec<ServedFile> = Vec::new();
        let mut i: usize = 0;
        while i < metadata.files.len()
            invariant
                i <= metadata.files@.len(),
                files@.len() == i,
                paths_are_safe(files@, i as int),
                forall|k: int|
                    0 <= k < i ==> metadata.files@[k].path@ == (#[trigger] files@[k]).path@
                        && metadata.files@[k].length == files@[k].length,
            decreases metadata.files@.len() - i,
        {
            let path = metadata.files[i].path.as_str().to_owned();
            files.push(ServedFile { path, length: metadata.files[i].length });
            i += 1;
        }
        let mut pieces: Vec<PieceHash> = Vec::new();
        let mut j: usize = 0;
        while j < metadata.pieces.len()
            invariant
                j <= metadata.pieces@.len(),
                pieces@ =~= metadata.pieces@.take(j as int),
            decreases metadata.pieces@.len() - j,
        {
            pieces.push(metadata.pieces[j]);
            j += 1;
        }
        proof {
            crate::torrent::domain::hex_round_trip(metadata.info_hash@);
            assert(metadata.pieces@.take(j as int) =~= metadata.pieces@);
        }
        ServedTorrent {
            info_hash: metadata.info_hash.to_hex(),
            name: metadata.name.as_str().to_owned(),
            piece_length: metadata.piece_length,
            files,
            pieces,
        }
    }

    /// Read what was served. `served` is what stands in the bytes, or why that
    /// cannot be said.
    pub fn inspect(&self, served: Result<ServedTorrent, String>) -> (r: Result<
        TorrentMetadata,
        InspectError,
    >)
        ensures
            match served {
                Err(why) => r == Err::<TorrentMetadata, InspectError>(InspectError::Malformed(why)),
                Ok(torrent) => match r {
                    Ok(metadata) => is_sound(torrent) && serves(torrent, metadata),
                    Err(error) => !is_sound(torrent) && (error matches InspectError::Malformed(why)
                        && fault(torrent, why@)),
                },
            },
    {
        let torrent = match served {
            Ok(torrent) => torrent,
            Err(why) => return Err(InspectError::Malformed(why)),
        };
        let info_hash = match InfoHash::parse_hex(torrent.info_hash.as_str()) {
            Ok(info_hash) => info_hash,
            Err(error) => return Err(InspectError::Malformed(error.message())),
        };
        let name = match read_path(torrent.name.as_str()) {
            Ok(name) => name,
            Err(why) => return Err(InspectError::Malformed(why)),
        };
        let mut files: Vec<TorrentFile> = Vec::new();
        let mut i: usize = 0;
        while i < torrent.files.len()
            invariant
                i <= torrent.files@.len(),
                served == Ok::<ServedTorrent, String>(torrent),
                crate::torrent::domain::is_hash(torrent.info_hash@),
                crate::torrent::path::safe_path(torrent.name@),
                paths_are_safe(torrent.files@, i as int),
                files@.len() == i,
                forall|k: int|
                    0 <= k < i ==> (#[trigger] files@[k]).path@ == torrent.files@[k].path@
                        && files@[k].length == torrent.files@[k].length,
            decreases torrent.files@.len() - i,
        {
            let path = match read_path(torrent.files[i].path.as_str()) {
                Ok(path) => path,
                Err(why) => {
                    assert(refused_as(torrent.files@[i as int].path@, why@));
                    return Err(InspectError::Malformed(why));
                },
            };
            files.push(TorrentFile { path, length: torrent.files[i].length });
            i += 1;
        }
        Ok(
            TorrentMetadata {
                info_hash,
                name,
                piece_length: torrent.piece_length,
                files,
                pieces: torrent.pieces,
            },
        )
    }
}

/// A torrent that was served is read back as what it was.
pub proof fn a_fake_torrent_is_read_back(
    metadata: TorrentMetadata,
    served: ServedTorrent,
    read: TorrentMetadata,
)
    requires
        serves(served, metadata),
        serves(served, read),
    ensures
        read.info_hash@ == metadata.info_hash@,
        read.name@ == metadata.name@,
        read.piece_length == metadata.piece_length,
        read.files@.len() == metadata.files@.len(),
        forall|i: int|
            0 <= i < read.files@.len() ==> (#[trigger] read.files@[i]).path@
                == metadata.files@[i].path@ && read.files@[i].length == metadata.files@[i].length,
        read.pieces@ == metadata.pieces@,
{
    assert forall|i: int| 0 <= i < read.files@.len() implies (#[trigger] read.files@[i]).path@
        == metadata.files@[i].path@ && read.files@[i].length == metadata.files@[i].length by {
        assert(metadata.files@[i].path@ == served.files@[i].path@);
    }
}

} // verus!
