//! SeedMedic repairs hit-and-run warnings on private trackers using media the
//! user already has.

// Capabilities.
pub mod library;
pub mod repair;
pub mod seeding;
pub mod staging;
pub mod torrent;
pub mod tracker;

// Cross-cutting support.
pub mod bootstrap;
pub mod check;
pub mod clock;
pub mod config;
pub mod connectivity;
pub mod diagnostics;
pub mod events;
pub mod json;
pub mod metrics;
pub mod not_implemented;
pub mod notify;
pub mod paths;
pub mod runtime;
pub mod sorting;
pub mod table;
pub mod text;
pub mod urls;
