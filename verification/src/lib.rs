//! A verified core for a lightweight virtual machine monitor.
//!
//! The crate holds the data structures, parsers, state machines and rules of the monitor:
//! configuration of a microVM, the virtio device models, the allocation of guest resources,
//! the dispatch of API requests and the life cycle of vCPUs. Everything that performs input or
//! output hands plain values to the functions of this crate and acts on what they return.

pub mod acpi;
pub mod api_server;
pub mod api_server_adapter;
pub mod arch;
pub mod boot_order;
pub mod builder;
pub mod cpu_config;
pub mod device_manager;
pub mod devices;
pub mod dumbo;
pub mod http;
pub mod io_uring;
pub mod machine_setup;
pub mod mmds;
pub mod rate_limiter;
pub mod resources;
pub mod rpc_interface;
pub mod snapshot_editor;
pub mod template;
pub mod utils;
pub mod vmm_config;
pub mod vstate;
