//! Configuration of metrics.

use vstd::prelude::*;

verus! {

/// Configuration of metrics.
#[derive(Debug)]
pub struct MetricsConfig {
    /// Where metrics go.
    pub metrics_path: String,
}

/// Why metrics cannot be written.
#[derive(Debug, Clone, Copy, PartialEq, Eq, Structural)]
pub enum MetricsConfigError {
    /// The file cannot be opened, or metrics go somewhere already.
    InitializationFailure,
}

} // verus!
