//! Configuration of saving and restoring a machine.

use vstd::prelude::*;

verus! {

/// What a saved machine holds of the memory of the guest.
#[derive(Debug, Clone, Copy, PartialEq, Eq, Structural)]
pub enum SnapshotType {
    /// What was changed since the machine was saved last.
    Diff,
    /// Everything.
    Full,
}

/// How the memory of the guest is given back.
#[derive(Debug, Clone, Copy, PartialEq, Eq, Structural)]
pub enum MemBackendType {
    /// From a file.
    File,
    /// By a process that handles page faults.
    Uffd,
}

/// Where the memory of the guest is given back from.
#[derive(Debug)]
pub struct MemBackendConfig {
    /// Path of the file, or of the socket of the process.
    pub backend_path: String,
    /// How the memory is given back.
    pub backend_type: MemBackendType,
}

/// A request to save a machine.
#[derive(Debug)]
pub struct CreateSnapshotParams {
    /// What is saved of the memory of the guest.
    pub snapshot_type: SnapshotType,
    /// Path of the file of the state.
    pub snapshot_path: String,
    /// Path of the file of the memory.
    pub mem_file_path: String,
}

/// Another host device for a network interface.
#[derive(Debug)]
pub struct NetworkOverride {
    /// Identifier of the interface.
    pub iface_id: String,
    /// Name of the host device.
    pub host_dev_name: String,
}

/// Another socket for the socket device.
#[derive(Debug)]
pub struct VsockOverride {
    /// Path of the socket.
    pub uds_path: String,
}

/// A request to restore a machine, as it is made.
#[derive(Debug)]
pub struct LoadSnapshotConfig {
    /// Path of the file of the state.
    pub snapshot_path: String,
    /// Where the memory is given back from.
    pub mem_backend: Option<MemBackendConfig>,
    /// Path of the file of the memory, in place of `mem_backend`.
    pub mem_file_path: Option<String>,
    /// Whether changes to the memory are tracked, in place of `track_dirty_pages`.
    pub enable_diff_snapshots: bool,
    /// Whether changes to the memory are tracked.
    pub track_dirty_pages: bool,
    /// Whether the machine is resumed.
    pub resume_vm: bool,
    /// Other host devices for network interfaces.
    pub network_overrides: Vec<NetworkOverride>,
    /// Another socket for the socket device.
    pub vsock_override: Option<VsockOverride>,
    /// Whether the wall clock of the guest goes on from the time of the host.
    pub clock_realtime: bool,
}

/// A request to restore a machine.
#[derive(Debug)]
pub struct LoadSnapshotParams {
    /// Path of the file of the state.
    pub snapshot_path: String,
    /// Where the memory is given back from.
    pub mem_backend: MemBackendConfig,
    /// Whether changes to the memory are tracked.
    pub track_dirty_pages: bool,
    /// Whether the machine is resumed.
    pub resume_vm: bool,
    /// Other host devices for network interfaces.
    pub network_overrides: Vec<NetworkOverride>,
    /// Another socket for the socket device.
    pub vsock_override: Option<VsockOverride>,
    /// Whether the wall clock of the guest goes on from the time of the host.
    pub clock_realtime: bool,
}

/// A requested state of a machine.
#[derive(Debug, Clone, Copy, PartialEq, Eq, Structural)]
pub enum VmState {
    /// The machine stands still.
    Paused,
    /// The machine runs.
    Resumed,
}

} // verus!
