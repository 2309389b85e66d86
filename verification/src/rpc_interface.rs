//! Requests to the machine and its answers.

use vstd::prelude::*;

use crate::devices::virtio::balloon::device::{BalloonConfig, StartHintingCmd};
use crate::vmm_config::logger::LoggerConfig;
use crate::vmm_config::memory_hotplug::{MemoryHotplugConfig, MemoryHotplugSizeUpdate};
use crate::vmm_config::snapshot::{CreateSnapshotParams, LoadSnapshotParams};

verus! {

/// A change to the size of a balloon.
#[derive(Debug, Clone, Copy, PartialEq, Eq, Structural)]
pub struct BalloonUpdateConfig {
    /// Target size, in MiB.
    pub amount_mib: u32,
}

/// A change to the statistics of a balloon.
#[derive(Debug, Clone, Copy, PartialEq, Eq, Structural)]
pub struct BalloonUpdateStatsConfig {
    /// How often statistics are polled, in seconds.
    pub stats_polling_interval_s: u16,
}

/// A request to the machine.
#[derive(Debug)]
pub enum VmmAction {
    /// Tell about the instance.
    GetVmInstanceInfo,
    /// Tell the version.
    GetVmmVersion,
    /// Tell the whole configuration.
    GetFullVmConfig,
    /// Tell the configuration of vCPUs and memory.
    GetVmMachineConfig,
    /// Tell the contents of the metadata store.
    GetMMDS,
    /// Configure the logger.
    ConfigureLogger(LoggerConfig),
    /// Tell the state of hotpluggable memory.
    GetMemoryHotplugStatus,
    /// Configure hotpluggable memory.
    SetMemoryHotplugDevice(MemoryHotplugConfig),
    /// Plug or unplug memory.
    UpdateMemoryHotplugSize(MemoryHotplugSizeUpdate),
    /// Tell the configuration of the balloon.
    GetBalloonConfig,
    /// Tell the statistics of the balloon.
    GetBalloonStats,
    /// Configure the balloon.
    SetBalloonDevice(BalloonConfig),
    /// Change the size of the balloon.
    UpdateBalloon(BalloonUpdateConfig),
    /// Change the statistics of the balloon.
    UpdateBalloonStatistics(BalloonUpdateStatsConfig),
    /// Start a hinting run.
    StartFreePageHinting(StartHintingCmd),
    /// Tell the commands of the hinting run.
    GetFreePageHintingStatus,
    /// End the hinting run.
    StopFreePageHinting,
    /// Pause the machine.
    Pause,
    /// Resume the machine.
    Resume,
    /// Save the machine.
    CreateSnapshot(CreateSnapshotParams),
    /// Restore the machine.
    LoadSnapshot(LoadSnapshotParams),
}

/// What the machine answers, in the form of JSON text where there is any.
#[derive(Debug)]
pub enum VmmData {
    /// Nothing.
    Empty,
    /// A configuration, a state or statistics.
    Json(String),
    /// The contents of the metadata store, if there are any.
    MmdsValue(Option<String>),
    /// The version.
    VmmVersion(String),
}

/// Why the machine refuses a request, with a message.
#[derive(Debug)]
pub enum VmmActionError {
    /// The metadata store would become too large.
    MmdsLimitExceeded(String),
    /// Any other reason.
    Refused(String),
}

} // verus!
