//! Virtio devices.

pub mod balloon;
pub mod block;
pub mod device;
pub mod iovec;
pub mod net;
pub mod persist;
pub mod pmem;
pub mod queue;
pub mod rng;
pub mod transport;
pub mod vsock;
