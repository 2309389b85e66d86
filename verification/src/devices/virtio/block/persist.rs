//! Saved state of a block device.

use vstd::prelude::*;

use crate::devices::virtio::block::device::{
    block_features, image_id_of, ConfigSpace, DiskProperties, FileEngineType, VirtioBlock,
    VIRTIO_BLK_F_RO,
};
use crate::devices::virtio::block::request::SECTOR_SIZE;
use crate::devices::virtio::device::{
    feature, has_feature, VirtioDeviceType,
};
use crate::devices::virtio::persist::VirtioDeviceState;
use crate::devices::virtio::queue::Queue;
use crate::rate_limiter::{RateLimiter, RateLimiterState};
use crate::vmm_config::drive::CacheType;

verus! {

/// The saved form of the type of a file engine.
#[derive(Debug, Clone, Copy, PartialEq, Eq, Structural)]
pub enum FileEngineTypeState {
    /// Transfers by blocking system calls.
    Sync,
    /// Transfers in the background.
    Async,
}

impl Default for FileEngineTypeState {
    fn default() -> (r: FileEngineTypeState)
        ensures
            r == FileEngineTypeState::Sync,
    {
        FileEngineTypeState::Sync
    }
}

impl From<FileEngineType> for FileEngineTypeState {
    fn from(file_engine_type: FileEngineType) -> (r: FileEngineTypeState) {
        match file_engine_type {
            FileEngineType::Sync => FileEngineTypeState::Sync,
            FileEngineType::Async => FileEngineTypeState::Async,
        }
    }
}

impl vstd::std_specs::convert::FromSpecImpl<FileEngineType> for FileEngineTypeState {
    open spec fn obeys_from_spec() -> bool {
        true
    }

    open spec fn from_spec(file_engine_type: FileEngineType) -> FileEngineTypeState {
        saved_engine(file_engine_type)
    }
}

impl From<FileEngineTypeState> for FileEngineType {
    fn from(file_engine_type_state: FileEngineTypeState) -> (r: FileEngineType) {
        match file_engine_type_state {
            FileEngineTypeState::Sync => FileEngineType::Sync,
            FileEngineTypeState::Async => FileEngineType::Async,
        }
    }
}

impl vstd::std_specs::convert::FromSpecImpl<FileEngineTypeState> for FileEngineType {
    open spec fn obeys_from_spec() -> bool {
        true
    }

    open spec fn from_spec(file_engine_type_state: FileEngineTypeState) -> FileEngineType {
        restored_engine(file_engine_type_state)
    }
}

/// The saved form of a type of engine.
pub open spec fn saved_engine(file_engine_type: FileEngineType) -> FileEngineTypeState {
    match file_engine_type {
        FileEngineType::Sync => FileEngineTypeState::Sync,
        FileEngineType::Async => FileEngineTypeState::Async,
    }
}

/// The type of engine with a given saved form.
pub open spec fn restored_engine(state: FileEngineTypeState) -> FileEngineType {
    match state {
        FileEngineTypeState::Sync => FileEngineType::Sync,
        FileEngineTypeState::Async => FileEngineType::Async,
    }
}

/// A type of engine survives being saved and restored, and the other way round.
pub proof fn law_engine_round_trip(engine: FileEngineType, state: FileEngineTypeState)
    ensures
        restored_engine(saved_engine(engine)) == engine,
        saved_engine(restored_engine(state)) == state,
{
}

/// Saved state of a block device.
#[derive(Debug)]
pub struct VirtioBlockState {
    /// Unique identifier.
    pub id: String,
    /// Identifier of the boot partition.
    pub partuuid: Option<String>,
    /// Whether the drive flushes.
    pub cache_type: CacheType,
    /// Whether the guest boots from the drive.
    pub root_device: bool,
    /// Path of the backing file.
    pub disk_path: String,
    /// State that every virtio device has.
    pub virtio_state: VirtioDeviceState,
    /// State of the limits.
    pub rate_limiter_state: RateLimiterState,
    /// Engine that performs the transfers.
    pub file_engine_type: FileEngineTypeState,
}

/// The state that is saved of a device.
pub open spec fn saved(block: VirtioBlock) -> VirtioBlockState {
    VirtioBlockState {
        id: block.id,
        partuuid: block.partuuid,
        cache_type: block.cache_type,
        root_device: block.root_device,
        disk_path: block.disk.file_path,
        virtio_state: VirtioDeviceState {
            device_type: VirtioDeviceType::Block,
            avail_features: block.avail_features,
            acked_features: block.acked_features,
            activated: block.activated,
        },
        rate_limiter_state: RateLimiterState {
            ops: block.rate_limiter.ops,
            bandwidth: block.rate_limiter.bandwidth,
        },
        file_engine_type: saved_engine(block.disk.file_engine_type),
    }
}

/// The device that a saved state describes, on a disk and with a queue.
pub open spec fn restored(state: VirtioBlockState, disk: DiskProperties, queue: Queue) -> VirtioBlock {
    VirtioBlock {
        avail_features: state.virtio_state.avail_features,
        acked_features: state.virtio_state.acked_features,
        config_space: ConfigSpace { capacity: disk.nsectors },
        queue,
        activated: false,
        id: state.id,
        partuuid: state.partuuid,
        cache_type: state.cache_type,
        root_device: state.root_device,
        read_only: feature(state.virtio_state.avail_features, VIRTIO_BLK_F_RO),
        disk,
        rate_limiter: RateLimiter {
            ops: state.rate_limiter_state.ops,
            bandwidth: state.rate_limiter_state.bandwidth,
            timer_active: false,
        },
        is_io_engine_throttled: false,
    }
}

impl VirtioBlockState {
    /// The state to save of a device.
    pub fn save(block: &VirtioBlock) -> (r: VirtioBlockState)
        ensures
            r == saved(*block),
    {
        VirtioBlockState {
            id: block.id.clone(),
            partuuid: block.partuuid.clone(),
            cache_type: block.cache_type,
            root_device: block.root_device,
            disk_path: block.disk.file_path.clone(),
            virtio_state: VirtioDeviceState {
                device_type: VirtioDeviceType::Block,
                avail_features: block.avail_features,
                acked_features: block.acked_features,
                activated: block.activated,
            },
            rate_limiter_state: block.rate_limiter.save(),
            file_engine_type: FileEngineTypeState::from(block.file_engine_type()),
        }
    }

    /// Whether the backing file is to be opened for reading only: the features say so.
    pub fn is_read_only(&self) -> (r: bool)
        ensures
            r == feature(self.virtio_state.avail_features, VIRTIO_BLK_F_RO),
    {
        has_feature(self.virtio_state.avail_features, VIRTIO_BLK_F_RO)
    }

    /// The device that the state describes, on the disk of `disk_size` bytes that its path leads to
    /// and with a queue.
    pub fn restore(&self, disk_size: u64, device_id: Option<&[u8]>, queue: Queue) -> (r: VirtioBlock)
        ensures
            r == restored(*self, r.disk, queue),
            r.disk.wf(),
            r.disk.file_path == self.disk_path,
            r.disk.file_engine_type == restored_engine(self.file_engine_type),
            r.disk.nsectors == disk_size / SECTOR_SIZE as u64,
            r.disk.image_id@ == image_id_of(
                match device_id {
                    Some(id) => Some(id@),
                    None => None,
                },
            ),
    {
        let disk = DiskProperties::new(
            self.disk_path.clone(),
            FileEngineType::from(self.file_engine_type),
            disk_size,
            device_id,
        );
        VirtioBlock {
            avail_features: self.virtio_state.avail_features,
            acked_features: self.virtio_state.acked_features,
            config_space: ConfigSpace { capacity: disk.nsectors },
            queue,
            activated: false,
            id: self.id.clone(),
            partuuid: self.partuuid.clone(),
            cache_type: self.cache_type,
            root_device: self.root_device,
            read_only: self.is_read_only(),
            disk,
            rate_limiter: RateLimiter::restore(&self.rate_limiter_state),
            is_io_engine_throttled: false,
        }
    }
}

/// A device that is saved and restored on its disk is saved the same again, but for being active.
pub proof fn law_restored_state(block: VirtioBlock, disk: DiskProperties, queue: Queue)
    requires
        disk.file_path == block.disk.file_path,
        disk.file_engine_type == block.disk.file_engine_type,
    ensures
        saved(restored(saved(block), disk, queue)) == (VirtioBlockState {
            virtio_state: VirtioDeviceState { activated: false, ..saved(block).virtio_state },
            ..saved(block)
        }),
{
}

/// A device that was made read-only is restored read-only, and no other is.
pub proof fn law_read_only_comes_back(cache_type: CacheType, read_only: bool)
    ensures
        feature(block_features(cache_type, read_only), VIRTIO_BLK_F_RO) == read_only,
{
    assert(((1u64 << 32u32) | (1u64 << 29u32)) & (1u64 << 5u32) == 0 && (((1u64 << 32u32) | (1u64
        << 29u32)) | (1u64 << 9u32)) & (1u64 << 5u32) == 0) by (bit_vector);
    assert(forall|f: u64| #[trigger] ((f | (1u64 << 5u32)) & (1u64 << 5u32)) != 0) by (bit_vector);
}

/// A drive that is restored is the one that was saved: what it is called and where it is, how it is
/// reached and cached, what was agreed on with its driver and what limits it. Its driver has to
/// activate it again, and its capacity is that of the file it is given.
pub proof fn law_saved_drive_comes_back(block: VirtioBlock, disk: DiskProperties, queue: Queue)
    requires
        block.avail_features == block_features(block.cache_type, block.read_only),
    ensures
        ({
            let state = saved(block);
            let after = restored(state, disk, queue);
            &&& state.disk_path == block.disk.file_path
            &&& restored_engine(state.file_engine_type) == block.disk.file_engine_type
            &&& state.virtio_state.activated == block.activated
            &&& after.id == block.id
            &&& after.partuuid == block.partuuid
            &&& after.cache_type == block.cache_type
            &&& after.root_device == block.root_device
            &&& after.read_only == block.read_only
            &&& after.avail_features == block.avail_features
            &&& after.acked_features == block.acked_features
            &&& after.rate_limiter.ops == block.rate_limiter.ops
            &&& after.rate_limiter.bandwidth == block.rate_limiter.bandwidth
            &&& !after.rate_limiter.timer_active
            &&& !after.activated
            &&& after.config_space.capacity == disk.nsectors
            &&& after.disk == disk
            &&& after.queue == queue
        }),
{
    law_read_only_comes_back(block.cache_type, block.read_only);
}

} // verus!
