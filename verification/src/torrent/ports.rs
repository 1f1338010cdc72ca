//! What reading a `.torrent` can come to.

use vstd::prelude::*;
use vstd::string::*;

use super::path::PathRejection;
use crate::not_implemented::NotImplemented;

verus! {

#[derive(Clone, Debug, PartialEq, Eq)]
pub enum InspectError {
    NotImplemented(NotImplemented),
    /// torrent is not valid bencode
    Malformed(String),
    /// torrent declares an unsafe path
    UnsafePath(PathRejection),
    /// torrent is missing a required field
    MissingField(&'static str),
}

impl InspectError {
    /// The sentence shown for it.
    pub open spec fn sentence(self) -> Seq<char> {
        match self {
            InspectError::NotImplemented(details) => details.sentence(),
            InspectError::Malformed(why) => "torrent is not valid bencode: "@ + why@,
            InspectError::UnsafePath(why) => "torrent declares an unsafe path: "@ + why.sentence(),
            InspectError::MissingField(field) => "torrent is missing required field `"@ + field@
                + "`"@,
        }
    }

    pub fn message(&self) -> (r: String)
        ensures
            r@ == self.sentence(),
    {
        match self {
            InspectError::NotImplemented(details) => details.message(),
            InspectError::Malformed(why) => {
                let mut out = "torrent is not valid bencode: ".to_owned();
                out.append(why.as_str());
                out
            },
            InspectError::UnsafePath(why) => {
                let mut out = "torrent declares an unsafe path: ".to_owned();
                out.append(why.message().as_str());
                out
            },
            InspectError::MissingField(field) => {
                let mut out = "torrent is missing required field `".to_owned();
                out.append(field);
                out.append("`");
                out
            },
        }
    }
}

} // verus!
