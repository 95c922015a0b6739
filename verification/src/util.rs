//! Helpers that are not specific to billiards.

pub mod power_cache;
pub mod tabulator;
