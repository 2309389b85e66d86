//! What depends on the x86 architecture.

pub mod kvm;
pub mod memory;
pub mod vm;
