//! Candidates for a torrent's files, and how sure we are of them.

use vstd::prelude::*;

use crate::torrent::{SafeRelativePath, TorrentFile};

verus! {

/// What a repair is looking for. Passed to every configured candidate source.
#[derive(Debug, PartialEq, Eq)]
pub struct CandidateQuery {
    /// The torrent's own name, usually the release name, which is what the
    /// *arr APIs can be searched by.
    pub torrent_name: String,
    pub files: Vec<TorrentFile>,
}

/// Where a candidate came from, kept for the audit trail: "we picked this file
/// because Sonarr instance `main` says it is episode 3" is an explanation, and
/// "we found a file of the right size somewhere under /media" is not.
#[derive(Debug, PartialEq, Eq)]
pub enum CandidateOrigin {
    Sonarr { instance: String },
    Radarr { instance: String },
    Filesystem { root: String },
}

impl Clone for CandidateOrigin {
    fn clone(&self) -> (r: CandidateOrigin)
        ensures
            r == *self,
    {
        match self {
            CandidateOrigin::Sonarr { instance } => CandidateOrigin::Sonarr {
                instance: instance.clone(),
            },
            CandidateOrigin::Radarr { instance } => CandidateOrigin::Radarr {
                instance: instance.clone(),
            },
            CandidateOrigin::Filesystem { root } => CandidateOrigin::Filesystem {
                root: root.clone(),
            },
        }
    }
}

/// A file in the user's library that might be the content a torrent wants.
///
/// `path` always points into the media library and is only ever read.
#[derive(Debug, PartialEq, Eq)]
pub struct Candidate {
    pub path: String,
    pub size_bytes: u64,
    pub origin: CandidateOrigin,
}

impl Clone for Candidate {
    fn clone(&self) -> (r: Candidate)
        ensures
            r == *self,
    {
        Candidate {
            path: self.path.clone(),
            size_bytes: self.size_bytes,
            origin: self.origin.clone(),
        }
    }
}

impl Candidate {
    /// The name of the file itself; empty where the path names none.
    pub open spec fn name(self) -> Seq<char> {
        match crate::paths::base_name(self.path@) {
            Some(name) => name,
            None => Seq::empty(),
        }
    }

    pub fn file_name(&self) -> (r: String)
        ensures
            r@ == self.name(),
    {
        match crate::paths::file_name(self.path.as_str()) {
            Some(name) => name,
            None => String::new(),
        }
    }
}

/// How sure we are that a candidate is the content the torrent wants.
///
/// Ordered: `Ambiguous < Probable < Operator < Exact`, so policy can express a
/// floor.
#[derive(Clone, Copy, Debug, PartialEq, Eq, PartialOrd, Ord, Structural)]
pub enum MatchConfidence {
    /// Several plausible candidates, or one that only agrees on size.
    Ambiguous,
    /// A single candidate agreeing on both size and name.
    Probable,
    /// Chosen by an operator.
    Operator,
    /// Verified against the torrent's piece hashes. Size alone never reaches
    /// this level.
    Exact,
}

impl MatchConfidence {
    /// Position in the order.
    pub open spec fn rank(self) -> int {
        match self {
            MatchConfidence::Ambiguous => 0,
            MatchConfidence::Probable => 1,
            MatchConfidence::Operator => 2,
            MatchConfidence::Exact => 3,
        }
    }

    fn level(self) -> (r: u8)
        ensures
            r == self.rank(),
    {
        match self {
            MatchConfidence::Ambiguous => 0,
            MatchConfidence::Probable => 1,
            MatchConfidence::Operator => 2,
            MatchConfidence::Exact => 3,
        }
    }

    /// Whether this confidence is weaker than the other.
    pub fn weaker_than(self, other: MatchConfidence) -> (r: bool)
        ensures
            r == (self.rank() < other.rank()),
    {
        self.level() < other.level()
    }
}

/// Why we believe what we believe. Persisted as JSON on `repair_job_files`.
#[derive(Clone, Copy, Debug, Default, PartialEq, Eq, Structural)]
pub struct MatchEvidence {
    pub size_matches: bool,
    pub name_matches: bool,
    pub candidates_with_matching_size: usize,
    /// Exact confidence requires it; matching by size and name never sets it.
    pub piece_verified: bool,
}

/// One torrent file paired with the library file chosen for it.
#[derive(Debug, PartialEq, Eq)]
pub struct FileMatch {
    pub torrent_path: SafeRelativePath,
    pub length: u64,
    pub source: String,
    pub origin: CandidateOrigin,
    pub confidence: MatchConfidence,
    pub evidence: MatchEvidence,
}

#[derive(Debug, PartialEq, Eq)]
pub struct UnmatchedFile {
    pub torrent_path: SafeRelativePath,
    pub length: u64,
    pub reason: UnmatchedReason,
}

#[derive(Clone, Copy, Debug, PartialEq, Eq, Structural)]
pub enum UnmatchedReason {
    /// Nothing in the library is the right size.
    NoCandidate,
    /// Several files are the right size and nothing distinguishes them.
    Ambiguous { candidates: usize },
}

/// The result of matching a whole torrent. A repair needs *every* file, so a
/// plan with any unmatched entry cannot be staged.
#[derive(Debug, PartialEq, Eq)]
pub struct MatchPlan {
    pub matched: Vec<FileMatch>,
    pub unmatched: Vec<UnmatchedFile>,
}

impl Default for MatchPlan {
    fn default() -> (r: MatchPlan)
        ensures
            r.matched@.len() == 0,
            r.unmatched@.len() == 0,
    {
        MatchPlan { matched: Vec::new(), unmatched: Vec::new() }
    }
}

/// `c` is the weakest confidence among the matches.
pub open spec fn weakest(matched: Seq<FileMatch>, c: MatchConfidence) -> bool {
    &&& exists|i: int| 0 <= i < matched.len() && (#[trigger] matched[i]).confidence == c
    &&& forall|i: int|
        0 <= i < matched.len() ==> c.rank() <= (#[trigger] matched[i]).confidence.rank()
}

impl MatchPlan {
    pub fn is_complete(&self) -> (r: bool)
        ensures
            r == (self.unmatched@.len() == 0 && self.matched@.len() > 0),
    {
        self.unmatched.len() == 0 && self.matched.len() > 0
    }

    /// The weakest link. A plan is only as trustworthy as its worst file.
    pub fn lowest_confidence(&self) -> (r: Option<MatchConfidence>)
        ensures
            match r {
                Some(c) => weakest(self.matched@, c),
                None => self.matched@.len() == 0,
            },
    {
        if self.matched.len() == 0 {
            return None;
        }
        let mut lowest = self.matched[0].confidence;
        let mut i: usize = 1;
        assert(self.matched@.take(1)[0].confidence == lowest);
        while i < self.matched.len()
            invariant
                1 <= i <= self.matched@.len(),
                weakest(self.matched@.take(i as int), lowest),
            decreases self.matched@.len() - i,
        {
            let c = self.matched[i].confidence;
            let ghost before = self.matched@.take(i as int);
            let ghost now = self.matched@.take(i + 1);
            proof {
                let w = choose|k: int|
                    0 <= k < before.len() && (#[trigger] before[k]).confidence == lowest;
                assert(now[w] == before[w]);
                assert(now[i as int].confidence == c);
                assert forall|k: int| 0 <= k < now.len() - 1 implies #[trigger] now[k]
                    == before[k] by {}
            }
            if c.weaker_than(lowest) {
                lowest = c;
            }
            assert(weakest(now, lowest));
            i += 1;
        }
        assert(self.matched@.take(i as int) =~= self.matched@);
        Some(lowest)
    }
}

/// There is only one weakest confidence.
pub proof fn weakest_is_unique(matched: Seq<FileMatch>, a: MatchConfidence, b: MatchConfidence)
    requires
        weakest(matched, a),
        weakest(matched, b),
    ensures
        a == b,
{
    let i = choose|i: int| 0 <= i < matched.len() && (#[trigger] matched[i]).confidence == a;
    let j = choose|j: int| 0 <= j < matched.len() && (#[trigger] matched[j]).confidence == b;
    assert(a.rank() == b.rank());
}

} // verus!
