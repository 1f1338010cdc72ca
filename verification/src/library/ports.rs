//! How looking for candidates can fail.

use vstd::prelude::*;
use vstd::string::*;

use crate::not_implemented::NotImplemented;

verus! {

#[derive(Debug, PartialEq, Eq)]
pub enum CandidateError {
    NotImplemented(NotImplemented),
    /// candidate lookup failed
    Transport(String),
    /// candidate source returned data we cannot interpret
    Protocol(String),
    /// failed to read the media library
    Io(String),
}

impl CandidateError {
    /// The sentence shown for it.
    pub open spec fn sentence(self) -> Seq<char> {
        match self {
            CandidateError::NotImplemented(details) => details.sentence(),
            CandidateError::Transport(why) => "candidate lookup failed: "@ + why@,
            CandidateError::Protocol(why) =>
                "candidate source returned data we cannot interpret: "@ + why@,
            CandidateError::Io(why) => "failed to read the media library: "@ + why@,
        }
    }

    pub fn message(&self) -> (r: String)
        ensures
            r@ == self.sentence(),
    {
        match self {
            CandidateError::NotImplemented(details) => details.message(),
            CandidateError::Transport(why) => {
                let mut out = "candidate lookup failed: ".to_owned();
                out.append(why.as_str());
                out
            },
            CandidateError::Protocol(why) => {
                let mut out = "candidate source returned data we cannot interpret: ".to_owned();
                out.append(why.as_str());
                out
            },
            CandidateError::Io(why) => {
                let mut out = "failed to read the media library: ".to_owned();
                out.append(why.as_str());
                out
            },
        }
    }

    /// Whether asking again may help.
    pub fn is_transient(&self) -> (r: bool)
        ensures
            r == (self is Transport || self is Io),
    {
        matches!(self, CandidateError::Transport(_) | CandidateError::Io(_))
    }
}

} // verus!
