//! Configuration of the source of entropy.

use vstd::prelude::*;

use crate::vmm_config::rate_limit::RateLimiterConfig;

verus! {

/// Configuration of a source of entropy.
#[derive(Debug, Clone, Copy, PartialEq, Eq, Structural)]
pub struct EntropyDeviceConfig {
    /// Limits on requests.
    pub rate_limiter: Option<RateLimiterConfig>,
}

/// Why a source of entropy is refused.
#[derive(Debug, Clone, Copy, PartialEq, Eq, Structural)]
pub enum EntropyDeviceError {
    /// The device could not be created.
    CreateDevice,
}

} // verus!
