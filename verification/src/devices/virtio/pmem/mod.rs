//! The virtio persistent memory device.

pub mod device;
pub mod persist;
