//! Configuration of the logger.

use vstd::prelude::*;

verus! {

/// Which messages are logged: those of a level and of the more severe ones.
#[derive(Debug, Clone, Copy, PartialEq, Eq, Structural)]
pub enum LevelFilter {
    /// None.
    Off,
    /// Errors.
    Error,
    /// Warnings.
    Warn,
    /// What happens in general.
    Info,
    /// What helps to find faults.
    Debug,
    /// Everything.
    Trace,
}

/// Configuration of the logger. What is not given stays as it is.
#[derive(Debug)]
pub struct LoggerConfig {
    /// Where messages go.
    pub log_path: Option<String>,
    /// Which messages are logged.
    pub level: Option<LevelFilter>,
    /// Whether messages tell their level.
    pub show_level: Option<bool>,
    /// Whether messages tell where in the code they come from.
    pub show_log_origin: Option<bool>,
    /// The only module whose messages are logged.
    pub module: Option<String>,
}

} // verus!
