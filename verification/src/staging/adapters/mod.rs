//! Where the staging area is.

pub mod local;
pub mod materialize;
pub mod stage_one;
pub mod unconfigured;
