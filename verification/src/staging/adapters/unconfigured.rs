//! Stands in for the staging filesystem when `staging.root` is unset.
//!
//! Every fallible method fails loudly, so a repair that reaches materialization
//! parks for review naming the missing setting rather than guessing a path or
//! silently succeeding.

use vstd::prelude::*;

use crate::not_implemented::NotImplemented;
use crate::staging::{
    MaterializationPlan, MaterializationStrategy, StagedLayout, StagingError, StagingPresence,
};
use crate::torrent::SafeRelativePath;

verus! {

/// What to do about it.
pub const TODO: &'static str = "set staging.root \u{2014} see Settings \u{2192} Staging";

pub struct UnconfiguredStaging;

/// The error names the missing setting.
pub open spec fn unconfigured(error: StagingError) -> bool {
    error matches StagingError::NotImplemented(details) && details.adapter@ == "staging"@
        && details.todo@ == TODO@
}

fn missing() -> (r: StagingError)
    ensures
        unconfigured(r),
{
    StagingError::NotImplemented(NotImplemented::new("staging", TODO))
}

impl UnconfiguredStaging {
    pub fn save_path(&self, job_dir: &SafeRelativePath) -> (r: String)
        ensures
            r@ == job_dir@,
    {
        let r = job_dir.join_onto("");
        proof {
            reveal_strlit("");
            assert(r@ =~= job_dir@);
        }
        r
    }

    /// Infallible, so it cannot report the missing setting the way the other
    /// methods do. An empty path is the honest answer; callers must render it
    /// as "not configured" rather than a bare string.
    pub fn root_path(&self) -> (r: &'static str)
        ensures
            r@ == ""@,
    {
        ""
    }

    pub fn free_bytes(&self) -> (r: Result<u64, StagingError>)
        ensures
            r matches Err(error) && unconfigured(error),
    {
        Err(missing())
    }

    pub fn materialize(
        &self,
        _plan: &MaterializationPlan,
        _preference: &[MaterializationStrategy],
    ) -> (r: Result<StagedLayout, StagingError>)
        ensures
            r matches Err(error) && unconfigured(error),
    {
        Err(missing())
    }

    pub fn inspect(&self, _plan: &MaterializationPlan) -> (r: Result<StagingPresence, StagingError>)
        ensures
            r matches Err(error) && unconfigured(error),
    {
        Err(missing())
    }

    pub fn discard(&self, _job_dir: &SafeRelativePath) -> (r: Result<(), StagingError>)
        ensures
            r matches Err(error) && unconfigured(error),
    {
        Err(missing())
    }

    pub fn usage(&self, _job_dir: &SafeRelativePath) -> (r: Result<u64, StagingError>)
        ensures
            r matches Err(error) && unconfigured(error),
    {
        Err(missing())
    }
}

} // verus!
