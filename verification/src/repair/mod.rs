//! Repair workflow management: the durable state machine that ties the other
//! capabilities together.

pub mod adapters;
pub mod application;
pub mod domain;
pub mod policy;
pub mod ports;
pub mod reconcile;
pub mod store;
pub mod worker;
