//! Weaving together output from more than one file.

pub mod batch;
pub mod watcher;
