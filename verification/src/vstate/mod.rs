//! State of a virtual machine: memory, vCPUs and allocated resources.

pub mod dump;
pub mod guest_memory;
pub mod kvm;
pub mod memory;
pub mod memory_map;
pub mod resources;
pub mod snapshot_file;
pub mod vcpu;
pub mod vm;
