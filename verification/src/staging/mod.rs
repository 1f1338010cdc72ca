//! The recovery staging area: where a torrent's layout is rebuilt from
//! library files.

pub mod adapters;
pub mod domain;
pub mod ports;
pub mod safety;

pub use domain::{
    MaterializationPlan, MaterializationStrategy, PlanItem, ReflinkSupport, StagedFile,
    StagedLayout, StagingPresence, StagingRoot, StagingRootError,
};
pub use ports::StagingError;
