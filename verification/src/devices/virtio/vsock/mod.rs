//! The virtio socket device.

pub mod persist;
