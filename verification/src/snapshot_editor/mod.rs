//! Inspection of snapshots.

pub mod info;
