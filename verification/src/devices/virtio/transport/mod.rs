//! Transports that connect virtio devices to the guest.

pub mod driver;
pub mod mmio;
