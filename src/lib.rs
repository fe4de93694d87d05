//! One-way directory mirroring: the decisions of a walk that copies missing or stale files from
//! a source tree into a destination tree and creates missing directories, never deleting.
//!
//! - `stamp`: modification times and the staleness rule.
//! - `entry`: directory listings and the first-match lookup by name.
//! - `check`: the decision for one source entry against a destination listing.
//! - `walker`: the depth-first walk, one directory level at a time.
//! - `tree`: whole trees, and what a run does to the destination.
//! - `report`: the outcome of a run; `args`: the command line.

pub mod args;
pub mod check;
pub mod entry;
pub mod report;
pub mod stamp;
pub mod tree;
pub mod walker;
