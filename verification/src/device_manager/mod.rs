//! Bookkeeping of the devices of a machine.

pub mod mmio;
