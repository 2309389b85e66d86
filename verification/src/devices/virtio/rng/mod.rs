//! The virtio source of entropy.

pub mod device;
pub mod persist;
