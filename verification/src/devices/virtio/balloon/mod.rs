//! The virtio balloon device.

pub mod device;
pub mod effects;
pub mod queues;
pub mod util;
