//! Exact unfolding of billiard trajectories in triangles.
//!
//! A trajectory is straightened by reflecting the triangle across its edges.
//! This crate computes the rotated copies of the apex that such an unfolding
//! visits, over an exact field, so that every sign test is decided.
//!
//! The unfolding itself is in [`billiards`], over the numbers of [`algebra`],
//! [`rational`] and [`vector`]. Around it stand the random apex points to try
//! it on, in [`data`], and what a front end needs to talk about them: the
//! words of its commands in [`command_line`] and [`repl`], and tables in
//! [`util`].

pub mod algebra;
pub mod billiards;
pub mod command_line;
pub mod data;
pub mod geometry;
pub mod rational;
pub mod reals;
pub mod repl;
pub mod singularity;
pub mod util;
pub mod vector;
