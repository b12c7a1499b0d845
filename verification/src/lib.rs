//! Snapshot cache and change-poll engine.
//!
//! The library keeps a bounded in-memory cache of dated schedule snapshots,
//! classifies how each group's content changed between refreshes, and drives
//! a crash-resilient refresh supervisor. Times are plain Unix timestamps in
//! seconds and dates are plain day numbers, so every rule here is a function
//! of its arguments and is verified as such.

pub mod cache;
pub mod clock;
pub mod config;
pub mod model;
pub mod polling;
pub mod strutil;
pub mod supervisor;

