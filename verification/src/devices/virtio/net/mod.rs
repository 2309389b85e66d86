//! The virtio network device.

pub mod device;
pub mod frames;
pub mod persist;
pub mod rx_buffers;
pub mod tap;
