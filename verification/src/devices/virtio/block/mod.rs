//! The virtio block device.

pub mod device;
pub mod persist;
pub mod request;
