//! Where repair jobs are kept.

pub mod rows;
pub mod sql;
