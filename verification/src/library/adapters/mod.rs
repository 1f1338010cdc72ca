//! Where candidates are looked for.

pub mod arr;
pub mod arr_search;
pub mod fake;
pub mod filesystem;
