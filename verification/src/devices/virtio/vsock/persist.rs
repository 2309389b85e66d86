//! Saved state of socket devices.

use vstd::prelude::*;

use crate::devices::virtio::persist::VirtioDeviceState;

verus! {

/// Saved state of a socket device.
#[derive(Debug)]
pub struct VsockState {
    /// State of the side of the host.
    pub backend: VsockBackendState,
    /// State of the side of the guest.
    pub frontend: VsockFrontendState,
}

/// Saved state of the side of the guest.
#[derive(Debug, Clone, Copy, PartialEq, Eq, Structural)]
pub struct VsockFrontendState {
    /// Address of the guest.
    pub cid: u64,
    /// State that every virtio device has.
    pub virtio_state: VirtioDeviceState,
}

/// Saved state of the side of the host.
#[derive(Debug)]
pub struct VsockBackendState {
    /// Path of the socket.
    pub uds_path: String,
    /// The last port that was used.
    pub local_port_last: u32,
}

/// What the side of the host is made from.
#[derive(Debug, Clone, Copy, PartialEq, Eq, Structural)]
pub struct VsockUdsConstructorArgs {
    /// Address of the guest.
    pub cid: u64,
}

/// The side of the host of a socket device.
#[derive(Debug)]
pub struct VsockUnixBackend {
    /// Address of the guest.
    pub cid: u64,
    /// Path of the socket.
    pub host_sock_path: String,
    /// The last port that was used.
    pub local_port_last: u32,
}

impl VsockUnixBackend {
    /// What is saved of the side of the host.
    pub open spec fn saved(self) -> VsockBackendState {
        VsockBackendState { uds_path: self.host_sock_path, local_port_last: self.local_port_last }
    }

    /// The side of the host that comes back from a state, for an address of the guest.
    pub open spec fn restored(cid: u64, state: VsockBackendState) -> VsockUnixBackend {
        VsockUnixBackend {
            cid,
            host_sock_path: state.uds_path,
            local_port_last: state.local_port_last,
        }
    }

    /// The state to save.
    pub fn save(&self) -> (r: VsockBackendState)
        ensures
            r == self.saved(),
    {
        VsockBackendState {
            uds_path: self.host_sock_path.clone(),
            local_port_last: self.local_port_last,
        }
    }

    /// The side of the host that a saved state describes.
    pub fn restore(args: VsockUdsConstructorArgs, state: &VsockBackendState) -> (r:
        VsockUnixBackend)
        ensures
            r == VsockUnixBackend::restored(args.cid, *state),
    {
        VsockUnixBackend {
            cid: args.cid,
            host_sock_path: state.uds_path.clone(),
            local_port_last: state.local_port_last,
        }
    }
}

/// The side of the guest of a socket device.
#[derive(Debug, Clone, Copy, PartialEq, Eq, Structural)]
pub struct Vsock {
    /// Address of the guest.
    pub cid: u64,
    /// State that every virtio device has.
    pub virtio: VirtioDeviceState,
}

impl Vsock {
    /// What is saved of the side of the guest.
    pub open spec fn saved(self) -> VsockFrontendState {
        VsockFrontendState { cid: self.cid, virtio_state: self.virtio }
    }

    /// The side of the guest that comes back from a state.
    pub open spec fn restored(state: VsockFrontendState) -> Vsock {
        Vsock {
            cid: state.cid,
            virtio: VirtioDeviceState { activated: false, ..state.virtio_state },
        }
    }

    /// The state to save.
    pub fn save(&self) -> (r: VsockFrontendState)
        ensures
            r == self.saved(),
    {
        VsockFrontendState { cid: self.cid, virtio_state: self.virtio }
    }

    /// The side of the guest that a saved state describes. It starts inactive.
    pub fn restore(state: &VsockFrontendState) -> (r: Vsock)
        ensures
            r == Vsock::restored(*state),
    {
        Vsock {
            cid: state.cid,
            virtio: VirtioDeviceState { activated: false, ..state.virtio_state },
        }
    }
}

/// Both sides of a socket device come back as they were saved, but for being active.
pub proof fn law_saved_sides_come_back(backend: VsockUnixBackend, vsock: Vsock)
    ensures
        VsockUnixBackend::restored(backend.cid, backend.saved()) == backend,
        Vsock::restored(vsock.saved()) == (Vsock {
            virtio: VirtioDeviceState { activated: false, ..vsock.virtio },
            ..vsock
        }),
{
}

} // verus!
