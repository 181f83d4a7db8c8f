//! Tracks the capability signals of crates from release to release: which
//! crates to check, what changed since the last run, and how to publish it.
//!
//! Everything here computes on plain values. Reading and writing files, asking
//! the registry, scanning sources and sending alerts is the caller's part.
pub mod alert;
pub mod clock;
pub mod crate_list;
pub mod escape;
pub mod feed;
pub mod history;
pub mod json;
pub mod lines;
pub mod occurrences;
pub mod page;
pub mod record;
pub mod report;
pub mod run;
pub mod snapshot;
pub mod text;
