//! The user's media library: finding files that are what a torrent wants.

pub mod adapters;
pub mod domain;
pub mod matching;
pub mod ports;
pub mod verification;

pub use domain::{
    Candidate, CandidateOrigin, CandidateQuery, FileMatch, MatchConfidence, MatchEvidence,
    MatchPlan, UnmatchedFile, UnmatchedReason,
};
pub use matching::plan_matches;
pub use ports::CandidateError;
