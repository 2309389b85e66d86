//! Configuration of the serial port.

use vstd::prelude::*;

use crate::vmm_config::rate_limit::TokenBucketConfig;

verus! {

/// Configuration of the serial port.
#[derive(Debug)]
pub struct SerialConfig {
    /// Where its output goes.
    pub serial_out_path: Option<String>,
    /// Limit on its output.
    pub rate_limiter: Option<TokenBucketConfig>,
}

} // verus!
