//! How staging can fail.

use vstd::prelude::*;
use vstd::string::*;

use super::domain::MaterializationStrategy;
use crate::not_implemented::NotImplemented;
use crate::text::decimal_of;

verus! {

#[derive(Debug, PartialEq, Eq)]
pub enum StagingError {
    NotImplemented(NotImplemented),
    /// that strategy is not available here
    StrategyUnavailable { strategy: MaterializationStrategy, reason: String },
    /// no permitted materialization strategy works for this repair
    NoStrategyPermitted,
    /// the staging filesystem has not enough room for the plan
    InsufficientSpace { needed: u64, available: u64, margin: u64 },
    /// the library file no longer exists
    SourceMissing(String),
    /// the library file has another size now
    SourceChanged { path: String, expected: u64, actual: u64 },
    /// refusing to touch that path
    UnsafePath { path: String, reason: &'static str },
    /// staging I/O failed
    Io(String),
}

impl StagingError {
    /// The sentence shown for it.
    pub open spec fn sentence(self) -> Seq<char> {
        match self {
            StagingError::NotImplemented(details) => details.sentence(),
            StagingError::StrategyUnavailable { strategy, reason } => strategy.title()
                + " is not available here: "@ + reason@,
            StagingError::NoStrategyPermitted =>
                "no permitted materialization strategy works for this repair"@,
            StagingError::InsufficientSpace { needed, available, margin } =>
                "staging filesystem has "@ + crate::text::decimal(available as nat)
                    + " bytes free but this plan needs "@ + crate::text::decimal(needed as nat)
                    + " bytes, after keeping "@ + crate::text::decimal(margin as nat)
                    + " bytes free"@,
            StagingError::SourceMissing(path) => "library file "@ + path@ + " no longer exists"@,
            StagingError::SourceChanged { path, expected, actual } => "library file "@ + path@
                + " is now "@ + crate::text::decimal(actual as nat) + " bytes, expected "@
                + crate::text::decimal(expected as nat),
            StagingError::UnsafePath { path, reason } => "refusing to touch "@ + path@ + ": "@
                + reason@,
            StagingError::Io(why) => "staging I/O failed: "@ + why@,
        }
    }

    pub fn message(&self) -> (r: String)
        ensures
            r@ == self.sentence(),
    {
        match self {
            StagingError::NotImplemented(details) => details.message(),
            StagingError::StrategyUnavailable { strategy, reason } => {
                let mut out = strategy.to_title().to_owned();
                out.append(" is not available here: ");
                out.append(reason.as_str());
                out
            },
            StagingError::NoStrategyPermitted =>
                "no permitted materialization strategy works for this repair".to_owned(),
            StagingError::InsufficientSpace { needed, available, margin } => {
                let mut out = "staging filesystem has ".to_owned();
                out.append(decimal_of(*available as u128).as_str());
                out.append(" bytes free but this plan needs ");
                out.append(decimal_of(*needed as u128).as_str());
                out.append(" bytes, after keeping ");
                out.append(decimal_of(*margin as u128).as_str());
                out.append(" bytes free");
                out
            },
            StagingError::SourceMissing(path) => {
                let mut out = "library file ".to_owned();
                out.append(path.as_str());
                out.append(" no longer exists");
                out
            },
            StagingError::SourceChanged { path, expected, actual } => {
                let mut out = "library file ".to_owned();
                out.append(path.as_str());
                out.append(" is now ");
                out.append(decimal_of(*actual as u128).as_str());
                out.append(" bytes, expected ");
                out.append(decimal_of(*expected as u128).as_str());
                out
            },
            StagingError::UnsafePath { path, reason } => {
                let mut out = "refusing to touch ".to_owned();
                out.append(path.as_str());
                out.append(": ");
                out.append(reason);
                out
            },
            StagingError::Io(why) => {
                let mut out = "staging I/O failed: ".to_owned();
                out.append(why.as_str());
                out
            },
        }
    }

    /// Only genuine I/O trouble is worth retrying. A missing source or an
    /// unavailable strategy will still be missing or unavailable next time.
    pub fn is_transient(&self) -> (r: bool)
        ensures
            r == (self is Io),
    {
        matches!(self, StagingError::Io(_))
    }
}

} // verus!
