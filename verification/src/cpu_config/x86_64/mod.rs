//! Configuration of x86 CPUs.

pub mod configuration;
pub mod custom_cpu_template;
