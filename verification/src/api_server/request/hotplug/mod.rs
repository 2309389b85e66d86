//! Requests on what is plugged while the machine runs.

pub mod memory;
