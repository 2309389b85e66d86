//! Configuration of the socket device.

use vstd::prelude::*;

verus! {

/// Configuration of a socket device.
#[derive(Debug)]
pub struct VsockDeviceConfig {
    /// Identifier.
    pub vsock_id: Option<String>,
    /// Address of the guest.
    pub guest_cid: u32,
    /// Path of the socket on the host.
    pub uds_path: String,
}

impl VsockDeviceConfig {
    /// A copy.
    pub fn copied(&self) -> (r: VsockDeviceConfig)
        ensures
            r == *self,
    {
        VsockDeviceConfig {
            vsock_id: self.vsock_id.clone(),
            guest_cid: self.guest_cid,
            uds_path: self.uds_path.clone(),
        }
    }
}

/// Why a socket device is refused.
#[derive(Debug, Clone, Copy, PartialEq, Eq, Structural)]
pub enum VsockConfigError {
    /// The socket on the host cannot be set up.
    CreateVsockBackend,
    /// The device cannot be created.
    CreateVsockDevice,
}

} // verus!
