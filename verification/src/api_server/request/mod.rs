//! Requests on one resource each.

pub mod balloon;
pub mod hotplug;
pub mod logger;
pub mod snapshot;
