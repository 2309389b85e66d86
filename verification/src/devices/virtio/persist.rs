//! What all virtio devices save of their state.

use vstd::prelude::*;

use crate::devices::virtio::device::VirtioDeviceType;

verus! {

/// Saved state that every virtio device has.
#[derive(Debug, Clone, Copy, PartialEq, Eq, Structural)]
pub struct VirtioDeviceState {
    /// What the device is.
    pub device_type: VirtioDeviceType,
    /// Features on offer.
    pub avail_features: u64,
    /// Features that the driver accepted.
    pub acked_features: u64,
    /// Whether the device was active.
    pub activated: bool,
}

} // verus!
