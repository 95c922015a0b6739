//! Data that the unfolding is tried on.

pub mod apex_set;
