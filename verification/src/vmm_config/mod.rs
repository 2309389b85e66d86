//! Configuration of a microVM.

pub mod balloon;
pub mod boot_source;
pub mod drive;
pub mod entropy;
pub mod instance_info;
pub mod logger;
pub mod machine_config;
pub mod memory_hotplug;
pub mod metrics;
pub mod mmds;
pub mod net;
pub mod pmem;
pub mod rate_limit;
pub mod serial;
pub mod snapshot;
pub mod vsock;
