//! Configuration of drives.

use vstd::prelude::*;

use crate::devices::virtio::block::device::FileEngineType;
use crate::vmm_config::rate_limit::RateLimiterConfig;

verus! {

/// Whether a drive flushes what was written.
#[derive(Debug, Clone, Copy, PartialEq, Eq, Structural)]
pub enum CacheType {
    /// Flush requests are ignored.
    Unsafe,
    /// Flush requests are advertised and honoured.
    Writeback,
}

/// Configuration of a drive of any sort.
#[derive(Debug)]
pub struct BlockDeviceConfig {
    /// Unique identifier of the drive.
    pub drive_id: String,
    /// Identifier of the boot partition.
    pub partuuid: Option<String>,
    /// Whether the guest boots from the drive.
    pub is_root_device: bool,
    /// Whether the drive flushes.
    pub cache_type: CacheType,
    /// Whether the drive is read-only.
    pub is_read_only: Option<bool>,
    /// Path of the backing file.
    pub path_on_host: Option<String>,
    /// Limits of the drive.
    pub rate_limiter: Option<RateLimiterConfig>,
    /// Engine that performs the transfers.
    pub file_engine_type: Option<FileEngineType>,
    /// Socket of the process that performs the transfers in place of a backing file.
    pub socket: Option<String>,
}

impl BlockDeviceConfig {
    /// A copy.
    pub fn copied(&self) -> (r: BlockDeviceConfig)
        ensures
            r == *self,
    {
        BlockDeviceConfig {
            drive_id: self.drive_id.clone(),
            partuuid: self.partuuid.clone(),
            is_root_device: self.is_root_device,
            cache_type: self.cache_type,
            is_read_only: self.is_read_only,
            path_on_host: self.path_on_host.clone(),
            rate_limiter: self.rate_limiter,
            file_engine_type: self.file_engine_type,
            socket: self.socket.clone(),
        }
    }
}

/// Why a drive is refused.
#[derive(Debug, Clone, Copy, PartialEq, Eq, Structural)]
pub enum DriveError {
    /// There is another root device.
    RootBlockDeviceAlreadyAdded,
    /// The device cannot be created.
    CreateBlockDevice,
}

/// The drives. A root device comes first.
#[derive(Debug)]
pub struct BlockBuilder {
    /// Configurations of the drives.
    pub devices: Vec<BlockDeviceConfig>,
}

/// The index of the first drive with an identifier, or the number of drives if there is none.
pub open spec fn drive_index(devices: Seq<BlockDeviceConfig>, id: Seq<char>) -> int
    decreases devices.len(),
{
    if devices.len() == 0 || devices[0].drive_id@ == id {
        0
    } else {
        1 + drive_index(devices.skip(1), id)
    }
}

/// Whether the first drive is the root device.
pub open spec fn has_root(devices: Seq<BlockDeviceConfig>) -> bool {
    devices.len() > 0 && devices[0].is_root_device
}

/// Whether a drive is refused because there is another root device.
pub open spec fn second_root(
    devices: Seq<BlockDeviceConfig>,
    config: BlockDeviceConfig,
    has_pmem_root: bool,
) -> bool {
    config.is_root_device && (has_pmem_root || (has_root(devices) && drive_index(
        devices,
        config.drive_id@,
    ) != 0))
}

/// The drives with a new one, or with one in place of that with the same identifier.
pub open spec fn with_drive(devices: Seq<BlockDeviceConfig>, config: BlockDeviceConfig) -> Seq<
    BlockDeviceConfig,
> {
    let i = drive_index(devices, config.drive_id@);
    if 0 <= i < devices.len() {
        let there = devices.update(i, config);
        if config.is_root_device {
            there.update(0, config).update(
                i,
                if i == 0 {
                    config
                } else {
                    devices[0]
                },
            )
        } else {
            there
        }
    } else if config.is_root_device {
        seq![config] + devices
    } else {
        devices.push(config)
    }
}

impl BlockBuilder {
    /// Only the first drive can be the root device.
    pub open spec fn wf(self) -> bool {
        forall|i: int|
            0 < i < self.devices@.len() ==> !(#[trigger] self.devices@[i]).is_root_device
    }

    /// No drives.
    pub fn new() -> (r: BlockBuilder)
        ensures
            r.wf(),
            r.devices@.len() == 0,
    {
        BlockBuilder { devices: Vec::new() }
    }

    /// Whether one of the drives is the root device.
    pub fn has_root_device(&self) -> (r: bool)
        ensures
            r == has_root(self.devices@),
    {
        self.devices.len() > 0 && self.devices[0].is_root_device
    }

    /// Finds a drive.
    fn position(&self, id: &String) -> (r: Option<usize>)
        ensures
            match r {
                Some(i) => i == drive_index(self.devices@, id@) && i < self.devices@.len(),
                None => drive_index(self.devices@, id@) == self.devices@.len(),
            },
    {
        let mut i: usize = 0;
        assert(self.devices@.skip(0) =~= self.devices@);
        while i < self.devices.len()
            invariant
                i <= self.devices@.len(),
                drive_index(self.devices@, id@) == i + drive_index(
                    self.devices@.skip(i as int),
                    id@,
                ),
            decreases self.devices@.len() - i,
        {
            assert(self.devices@.skip(i as int)[0] == self.devices@[i as int]);
            assert(self.devices@.skip(i as int).skip(1) =~= self.devices@.skip(i + 1));
            if self.devices[i].drive_id == *id {
                return Some(i);
            }
            i += 1;
        }
        None
    }

    /// Adds a drive, or replaces the one with the same identifier. `created` says whether the
    /// device could be created.
    pub fn insert(
        &mut self,
        config: BlockDeviceConfig,
        has_pmem_root: bool,
        created: Result<(), DriveError>,
    ) -> (r: Result<(), DriveError>)
        requires
            old(self).wf(),
        ensures
            final(self).wf(),
            r is Err ==> final(self).devices@ == old(self).devices@,
            second_root(old(self).devices@, config, has_pmem_root) ==> r is Err && r->Err_0
                == DriveError::RootBlockDeviceAlreadyAdded,
            !second_root(old(self).devices@, config, has_pmem_root) ==> match created {
                Err(e) => r is Err && r->Err_0 == e,
                Ok(_) => r is Ok && final(self).devices@ == with_drive(old(self).devices@, config),
            },
    {
        let position = self.position(&config.drive_id);
        let ghost before = self.devices@;
        let at_front: bool = match position {
            Some(i) => i == 0,
            None => self.devices.len() == 0,
        };
        if config.is_root_device && (has_pmem_root || (self.has_root_device() && !at_front)) {
            return Err(DriveError::RootBlockDeviceAlreadyAdded);
        }
        if let Err(e) = created {
            return Err(e);
        }
        let root: bool = config.is_root_device;
        match position {
            None => {
                if root {
                    self.devices.insert(0, config);
                    assert(self.devices@ =~= with_drive(before, config));
                } else {
                    self.devices.push(config);
                }
            },
            Some(i) => {
                if root && i != 0 {
                    let first = self.devices[0].copied();
                    self.devices.set(i, first);
                    self.devices.set(0, config);
                } else {
                    self.devices.set(i, config);
                }
                assert(self.devices@ =~= with_drive(before, config));
            },
        }
        Ok(())
    }
}

proof fn lemma_drive_index(devices: Seq<BlockDeviceConfig>, id: Seq<char>)
    ensures
        0 <= drive_index(devices, id) <= devices.len(),
        drive_index(devices, id) < devices.len() ==> devices[drive_index(devices, id)].drive_id@
            == id,
        forall|j: int|
            0 <= j < drive_index(devices, id) ==> (#[trigger] devices[j]).drive_id@ != id,
    decreases devices.len(),
{
    if devices.len() > 0 && devices[0].drive_id@ != id {
        let rest = devices.skip(1);
        lemma_drive_index(rest, id);
        assert forall|j: int| 0 <= j < drive_index(devices, id) implies (
        #[trigger] devices[j]).drive_id@ != id by {
            if j > 0 {
                assert(rest[j - 1] == devices[j]);
            }
        }
    }
}

/// A drive that is added is there, and all drives with other names stay. A root device is the first
/// drive. A new drive that is none comes last, and one that was there keeps its place.
pub proof fn law_drives_are_added_in_place(
    devices: Seq<BlockDeviceConfig>,
    config: BlockDeviceConfig,
    k: int,
)
    requires
        0 <= k < devices.len() ==> devices[k].drive_id@ != config.drive_id@,
    ensures
        ({
            let after = with_drive(devices, config);
            let is_new = forall|j: int|
                0 <= j < devices.len() ==> (#[trigger] devices[j]).drive_id@ != config.drive_id@;
            &&& after.contains(config)
            &&& 0 <= k < devices.len() ==> after.contains(devices[k])
            &&& is_new ==> after.len() == devices.len() + 1
            &&& !is_new ==> after.len() == devices.len()
            &&& config.is_root_device ==> after[0] == config
            &&& !config.is_root_device && is_new ==> after.last() == config && after.drop_last()
                == devices
            &&& !config.is_root_device && !is_new && 0 <= k < devices.len() ==> after[k]
                == devices[k]
        }),
{
    lemma_drive_index(devices, config.drive_id@);
    let i = drive_index(devices, config.drive_id@);
    let after = with_drive(devices, config);
    if i < devices.len() {
        assert(devices[i].drive_id@ == config.drive_id@);
        if config.is_root_device {
            assert(after[0] == config);
            if 0 <= k < devices.len() {
                if k == 0 {
                    assert(after[i] == devices[0]);
                } else {
                    assert(after[k] == devices[k]);
                }
            }
        } else {
            assert(after[i] == config);
            if 0 <= k < devices.len() {
                assert(after[k] == devices[k]);
            }
        }
    } else if config.is_root_device {
        assert(after[0] == config);
        if 0 <= k < devices.len() {
            assert(after[k + 1] == devices[k]);
        }
    } else {
        assert(after[devices.len() as int] == config);
        assert(after.drop_last() =~= devices);
        if 0 <= k < devices.len() {
            assert(after[k] == devices[k]);
        }
    }
}

/// A root device is refused exactly when there is another one: a persistent memory device, or a
/// drive with another name.
pub proof fn law_second_root_is_refused(
    devices: Seq<BlockDeviceConfig>,
    config: BlockDeviceConfig,
    has_pmem_root: bool,
)
    requires
        forall|i: int| 0 < i < devices.len() ==> !(#[trigger] devices[i]).is_root_device,
    ensures
        second_root(devices, config, has_pmem_root) <==> config.is_root_device && (has_pmem_root
            || exists|i: int|
            0 <= i < devices.len() && (#[trigger] devices[i]).is_root_device && devices[i].drive_id@
                != config.drive_id@),
{
    lemma_drive_index(devices, config.drive_id@);
    if has_root(devices) && drive_index(devices, config.drive_id@) != 0 {
        assert(devices[0].is_root_device);
    }
}

} // verus!
