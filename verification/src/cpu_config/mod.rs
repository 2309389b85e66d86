//! Configuration of virtual CPUs.

pub mod templates;
pub mod x86_64;
