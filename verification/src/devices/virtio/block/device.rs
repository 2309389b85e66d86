//! The block device model.

use vstd::prelude::*;

use crate::devices::virtio::block::request::{
    answered_at_once, code_in_chain, engine_result, engine_work, finished,
    law_code_decides_the_work, law_fitting_chains_are_requests, law_transfers_cost_their_bytes,
    limited, limiter_after, outcome, parsed, sector_in_chain, status_in_memory, Dispatch,
    EngineAnswer, EngineOp, EngineRequest, FinishedRequest, IoErr, PendingRequest,
    ProcessingResult, Request, RequestType, VirtioBlockError, SECTOR_SIZE, VIRTIO_BLK_ID_BYTES,
};
use crate::devices::virtio::device::{
    config_written, has_feature, write_config_bytes, ActivateError, VirtioInterruptType,
    VIRTIO_F_VERSION_1, VIRTIO_RING_F_EVENT_IDX,
};
use crate::devices::virtio::queue::{
    InvalidAvailIdx, Queue, UsedElement, FIRECRACKER_MAX_QUEUE_SIZE,
};
use crate::rate_limiter::{tokens_held, updated_bucket, BucketUpdate, RateLimiter};
use crate::utils::text::{decimal, decimal_string, join3};
use crate::vmm_config::drive::{BlockDeviceConfig, CacheType};
use crate::vmm_config::rate_limit::{
    build_limiter, describe_limiter, limiter_config, limiter_of, RateLimiterConfig,
};
use crate::vstate::guest_memory::{bytes64, le64, read_le64, to_le64, GuestMemory};

verus! {

/// Feature bit: the device is read-only.
pub const VIRTIO_BLK_F_RO: u32 = 5;

/// Feature bit: the device honours flush requests.
pub const VIRTIO_BLK_F_FLUSH: u32 = 9;

/// Who performs the transfers of a block device.
#[derive(Debug, Clone, Copy, PartialEq, Eq, Structural)]
pub enum FileEngineType {
    /// An engine that works in the background.
    Async,
    /// An engine of blocking system calls.
    Sync,
}

impl Default for FileEngineType {
    fn default() -> (r: FileEngineType)
        ensures
            r == FileEngineType::Sync,
    {
        FileEngineType::Sync
    }
}

/// What a block device takes from its backing file.
#[derive(Debug)]
pub struct DiskProperties {
    /// Path of the backing file.
    pub file_path: String,
    /// Engine that performs the transfers.
    pub file_engine_type: FileEngineType,
    /// Number of whole sectors in the file.
    pub nsectors: u64,
    /// Identifier of the disk image.
    pub image_id: Vec<u8>,
}

/// The identifier of a disk image: the start of the identifier of its file, or nothing where that
/// is not known, filled up with zeros.
pub open spec fn image_id_of(device_id: Option<Seq<u8>>) -> Seq<u8> {
    Seq::new(
        VIRTIO_BLK_ID_BYTES as nat,
        |i: int|
            match device_id {
                Some(id) => if i < id.len() {
                    id[i]
                } else {
                    0
                },
                None => 0,
            },
    )
}

impl DiskProperties {
    /// The identifier of the disk image is complete.
    pub open spec fn wf(self) -> bool {
        self.image_id@.len() == VIRTIO_BLK_ID_BYTES
    }

    /// Describes a backing file of `disk_size` bytes. A rest that does not fill a sector is left
    /// out.
    pub fn new(
        disk_image_path: String,
        file_engine_type: FileEngineType,
        disk_size: u64,
        device_id: Option<&[u8]>,
    ) -> (r: DiskProperties)
        ensures
            r.wf(),
            r.file_path == disk_image_path,
            r.file_engine_type == file_engine_type,
            r.nsectors == disk_size / SECTOR_SIZE as u64,
            r.image_id@ == image_id_of(
                match device_id {
                    Some(id) => Some(id@),
                    None => None,
                },
            ),
    {
        DiskProperties {
            file_path: disk_image_path,
            file_engine_type,
            nsectors: disk_size / SECTOR_SIZE as u64,
            image_id: Self::build_disk_image_id(device_id),
        }
    }

    /// Takes over another backing file.
    pub fn update(&mut self, disk_image_path: String, disk_size: u64, device_id: Option<&[u8]>)
        requires
            old(self).wf(),
        ensures
            final(self).wf(),
            final(self).file_path == disk_image_path,
            final(self).file_engine_type == old(self).file_engine_type,
            final(self).nsectors == disk_size / SECTOR_SIZE as u64,
            final(self).image_id@ == image_id_of(
                match device_id {
                    Some(id) => Some(id@),
                    None => None,
                },
            ),
    {
        self.image_id = Self::build_disk_image_id(device_id);
        self.nsectors = disk_size / SECTOR_SIZE as u64;
        self.file_path = disk_image_path;
    }

    /// The identifier of a file: its device, the device it stands for and its inode, in decimal
    /// notation.
    pub fn build_device_id(st_dev: u64, st_rdev: u64, st_ino: u64) -> (r: String)
        ensures
            r@ == decimal(st_dev as nat) + decimal(st_rdev as nat) + decimal(st_ino as nat),
    {
        let dev = decimal_string(st_dev);
        let rdev = decimal_string(st_rdev);
        let ino = decimal_string(st_ino);
        join3(dev.as_str(), rdev.as_str(), ino.as_str())
    }

    /// The identifier of a disk image, from the identifier of its file.
    pub fn build_disk_image_id(device_id: Option<&[u8]>) -> (r: Vec<u8>)
        ensures
            r@ == image_id_of(
                match device_id {
                    Some(id) => Some(id@),
                    None => None,
                },
            ),
    {
        let mut id: Vec<u8> = Vec::new();
        let ghost source: Option<Seq<u8>> = match device_id {
            Some(bytes) => Some(bytes@),
            None => None,
        };
        let len: usize = match device_id {
            Some(bytes) => bytes.len(),
            None => 0,
        };
        while id.len() < VIRTIO_BLK_ID_BYTES as usize
            invariant
                id@.len() <= VIRTIO_BLK_ID_BYTES,
                device_id matches Some(bytes) ==> len == bytes@.len() && source == Some(bytes@),
                device_id is None ==> len == 0 && source is None,
                id@ == image_id_of(source).take(id@.len() as int),
            decreases VIRTIO_BLK_ID_BYTES - id.len(),
        {
            let i: usize = id.len();
            let byte: u8 = match device_id {
                Some(bytes) => if i < len {
                    bytes[i]
                } else {
                    0
                },
                None => 0,
            };
            id.push(byte);
            assert(id@ =~= image_id_of(source).take(id@.len() as int));
        }
        assert(image_id_of(source).take(id@.len() as int) =~= image_id_of(source));
        id
    }
}

/// The configuration space of a block device.
#[derive(Debug, Clone, Copy, PartialEq, Eq, Structural)]
pub struct ConfigSpace {
    /// Number of sectors.
    pub capacity: u64,
}

/// Configuration of a block device that is backed by a file.
#[derive(Debug)]
pub struct VirtioBlockConfig {
    /// Unique identifier of the drive.
    pub drive_id: String,
    /// Identifier of the boot partition, used only for a root device.
    pub partuuid: Option<String>,
    /// Whether the guest boots from the drive.
    pub is_root_device: bool,
    /// Whether the drive flushes.
    pub cache_type: CacheType,
    /// Whether the drive is read-only.
    pub is_read_only: bool,
    /// Path of the backing file.
    pub path_on_host: String,
    /// Limits of the drive.
    pub rate_limiter: Option<RateLimiterConfig>,
    /// Engine that performs the transfers.
    pub file_engine_type: FileEngineType,
}

/// The configuration of a file backed drive, from that of a drive of any sort: it needs a path
/// and no socket.
pub open spec fn file_backed(value: BlockDeviceConfig) -> Option<VirtioBlockConfig> {
    if value.path_on_host is Some && value.socket is None {
        Some(
            VirtioBlockConfig {
                drive_id: value.drive_id,
                partuuid: value.partuuid,
                is_root_device: value.is_root_device,
                cache_type: value.cache_type,
                is_read_only: value.is_read_only == Some(true),
                path_on_host: value.path_on_host->0,
                rate_limiter: value.rate_limiter,
                file_engine_type: match value.file_engine_type {
                    Some(engine) => engine,
                    None => FileEngineType::Sync,
                },
            },
        )
    } else {
        None
    }
}

/// The configuration of a file backed drive as one of a drive of any sort.
pub open spec fn as_drive(value: VirtioBlockConfig) -> BlockDeviceConfig {
    BlockDeviceConfig {
        drive_id: value.drive_id,
        partuuid: value.partuuid,
        is_root_device: value.is_root_device,
        cache_type: value.cache_type,
        is_read_only: Some(value.is_read_only),
        path_on_host: Some(value.path_on_host),
        rate_limiter: value.rate_limiter,
        file_engine_type: Some(value.file_engine_type),
        socket: None,
    }
}

impl VirtioBlockConfig {
    /// Takes over the configuration of a drive that is backed by a file.
    pub fn try_from_drive(value: &BlockDeviceConfig) -> (r: Result<
        VirtioBlockConfig,
        VirtioBlockError,
    >)
        ensures
            match r {
                Ok(config) => file_backed(*value) == Some(config),
                Err(e) => file_backed(*value) is None && e == VirtioBlockError::Config,
            },
    {
        match (&value.path_on_host, &value.socket) {
            (Some(path_on_host), None) => {
                let is_read_only: bool = match value.is_read_only {
                    Some(is_read_only) => is_read_only,
                    None => false,
                };
                let file_engine_type = match value.file_engine_type {
                    Some(engine) => engine,
                    None => FileEngineType::Sync,
                };
                Ok(
                    VirtioBlockConfig {
                        drive_id: value.drive_id.clone(),
                        partuuid: value.partuuid.clone(),
                        is_root_device: value.is_root_device,
                        cache_type: value.cache_type,
                        is_read_only,
                        path_on_host: path_on_host.clone(),
                        rate_limiter: value.rate_limiter,
                        file_engine_type,
                    },
                )
            },
            _ => Err(VirtioBlockError::Config),
        }
    }

    /// The configuration as one of a drive of any sort.
    pub fn into_drive(self) -> (r: BlockDeviceConfig)
        ensures
            r == as_drive(self),
    {
        BlockDeviceConfig {
            drive_id: self.drive_id,
            partuuid: self.partuuid,
            is_root_device: self.is_root_device,
            cache_type: self.cache_type,
            is_read_only: Some(self.is_read_only),
            path_on_host: Some(self.path_on_host),
            rate_limiter: self.rate_limiter,
            file_engine_type: Some(self.file_engine_type),
            socket: None,
        }
    }
}

/// The configuration of a file backed drive survives being widened and taken over again.
pub proof fn law_drive_config_round_trip(config: VirtioBlockConfig)
    ensures
        file_backed(as_drive(config)) == Some(config),
{
}

/// The features that a block device offers.
pub open spec fn block_features(cache_type: CacheType, read_only: bool) -> u64 {
    let base = (1u64 << VIRTIO_F_VERSION_1) | (1u64 << VIRTIO_RING_F_EVENT_IDX);
    let flush = if cache_type == CacheType::Writeback {
        base | (1u64 << VIRTIO_BLK_F_FLUSH)
    } else {
        base
    };
    if read_only {
        flush | (1u64 << VIRTIO_BLK_F_RO)
    } else {
        flush
    }
}

/// A block device.
#[derive(Debug)]
pub struct VirtioBlock {
    /// Features that the device offers.
    pub avail_features: u64,
    /// Features that the driver accepted.
    pub acked_features: u64,
    /// Configuration space.
    pub config_space: ConfigSpace,
    /// The queue of requests.
    pub queue: Queue,
    /// Whether the driver activated the device.
    pub activated: bool,
    /// Unique identifier.
    pub id: String,
    /// Identifier of the boot partition.
    pub partuuid: Option<String>,
    /// Whether the drive flushes.
    pub cache_type: CacheType,
    /// Whether the guest boots from the drive.
    pub root_device: bool,
    /// Whether the drive is read-only.
    pub read_only: bool,
    /// What the device takes from its backing file.
    pub disk: DiskProperties,
    /// Limits of the drive.
    pub rate_limiter: RateLimiter,
    /// Whether the file engine takes no more requests for now.
    pub is_io_engine_throttled: bool,
}

/// What is asked of a file engine that comes to rest. Transfers that are under way complete in
/// any case.
#[derive(Debug, Clone, Copy, PartialEq, Eq, Structural)]
pub struct EngineRest {
    /// Whether what was written must reach the disk.
    pub flush: bool,
    /// Whether completions are dropped.
    pub discard: bool,
    /// Whether completions are handed to the guest afterwards.
    pub process_completions: bool,
}

/// What is to be done next about the queue of a block device.
#[derive(Debug, Clone, Copy, PartialEq, Eq, Structural)]
pub enum BlockStep {
    /// A request was answered, the next one can be taken.
    Continue,
    /// The file engine must work on a request before the next one can be taken.
    Engine(EngineRequest),
    /// Nothing more can be done for now.
    Stop,
}

/// What an event on the queue calls for.
#[derive(Debug, Clone, Copy, PartialEq, Eq, Structural)]
pub enum QueueEventAction {
    /// The event could not be read.
    ReportFailure,
    /// The rate limiter is blocked.
    Throttled,
    /// The file engine takes no more requests.
    EngineThrottled,
    /// The queue is to be processed.
    Process,
}

/// A transfer that the file engine completed: the request, and the bytes moved unless it failed.
#[derive(Debug, Clone, Copy, PartialEq, Eq, Structural)]
pub struct Completion {
    /// The request.
    pub req: PendingRequest,
    /// Bytes that were moved, or nothing if the transfer failed.
    pub count: Option<u32>,
}

/// What came of a completed transfer.
pub open spec fn completion_result(completion: Completion) -> Result<u32, IoErr> {
    match completion.count {
        Some(count) => Ok(count),
        None => Err(IoErr::FileEngine),
    }
}

/// The used entry that a completed transfer leads to.
pub open spec fn completion_entry(completion: Completion, mem: GuestMemory) -> UsedElement {
    let done = finished(
        completion.req,
        outcome(completion.req, completion_result(completion)),
        mem.has(completion.req.status_addr as int),
    );
    UsedElement { id: done.desc_idx, len: done.num_bytes_to_mem }
}

/// Whether `trace` are the contents of guest memory as the status bytes of completed transfers
/// are written, one after the other.
pub open spec fn status_trace(trace: Seq<GuestMemory>, completions: Seq<Completion>) -> bool {
    &&& trace.len() == completions.len() + 1
    &&& forall|i: int|
        0 <= i < completions.len() ==> status_in_memory(
            trace[i],
            #[trigger] trace[i + 1],
            completions[i].req,
            outcome(completions[i].req, completion_result(completions[i])),
        )
}

/// Whether `after` is `before` with the status bytes of completed transfers written in order.
pub open spec fn statuses_in_memory(
    before: GuestMemory,
    after: GuestMemory,
    completions: Seq<Completion>,
) -> bool {
    exists|trace: Seq<GuestMemory>| #[trigger]
        status_trace(trace, completions) && trace[0] == before && trace.last() == after
}

/// What is done about the next chain of the queue, which holds no more chains than it can: the
/// device and guest memory afterwards, and what is to be done next.
pub open spec fn next_step(
    before: VirtioBlock,
    mem_before: GuestMemory,
    after: VirtioBlock,
    mem_after: GuestMemory,
    step: BlockStep,
) -> bool {
    if before.queue.pending() == 0 {
        &&& step == BlockStep::Stop
        &&& after == before
        &&& mem_after == mem_before
    } else {
        let chain = before.queue.avail@[before.queue.next_avail as int]@;
        match parsed(chain, mem_before, before.disk.nsectors) {
            Err(_) => {
                // A chain that is no request is given back with nothing.
                &&& step == BlockStep::Continue
                &&& used_one(before, after, UsedElement { id: chain.index, len: 0 })
                &&& after.rate_limiter == before.rate_limiter
                &&& mem_after == mem_before
            },
            Ok(request) => {
                &&& after.rate_limiter == limiter_after(request, before.rate_limiter)
                &&& if limited(request, before.rate_limiter) {
                    // The chain stays in the queue for later.
                    &&& step == BlockStep::Stop
                    &&& after == (VirtioBlock { rate_limiter: after.rate_limiter, ..before })
                    &&& mem_after == mem_before
                } else {
                    match engine_work(request, chain.index) {
                        Some(work) => {
                            &&& step == BlockStep::Engine(work)
                            &&& after.queue.next_avail == before.queue.next_avail + 1
                            &&& after == (VirtioBlock {
                                rate_limiter: after.rate_limiter,
                                queue: Queue {
                                    next_avail: after.queue.next_avail,
                                    ..before.queue
                                },
                                ..before
                            })
                            &&& mem_after == mem_before
                        },
                        None => {
                            &&& step == BlockStep::Continue
                            &&& exists|done: FinishedRequest|
                                {
                                    &&& #[trigger] answered_at_once(
                                        request,
                                        before.disk.image_id@,
                                        chain.index,
                                        mem_before,
                                        mem_after,
                                        done,
                                    )
                                    &&& used_one(
                                        before,
                                        after,
                                        UsedElement {
                                            id: chain.index,
                                            len: done.num_bytes_to_mem,
                                        },
                                    )
                                }
                        },
                    }
                }
            },
        }
    }
}

/// Whether the next chain was taken and given back with the given entry, and nothing but the
/// limiter changed besides.
pub open spec fn used_one(before: VirtioBlock, after: VirtioBlock, entry: UsedElement) -> bool {
    &&& after.queue.next_avail == before.queue.next_avail + 1
    &&& after.queue.used@ == before.queue.used@.push(entry)
    &&& after == (VirtioBlock {
        rate_limiter: after.rate_limiter,
        queue: Queue {
            next_avail: after.queue.next_avail,
            used: after.queue.used,
            ..before.queue
        },
        ..before
    })
}

/// Whether `devices` and `mems` are the device and guest memory as chains are answered, one after
/// the other.
pub open spec fn steps_taken(devices: Seq<VirtioBlock>, mems: Seq<GuestMemory>) -> bool {
    &&& 0 < devices.len()
    &&& devices.len() == mems.len()
    &&& forall|i: int|
        0 < i < devices.len() ==> next_step(
            devices[i - 1],
            mems[i - 1],
            #[trigger] devices[i],
            mems[i],
            BlockStep::Continue,
        )
}

/// Whether chains were answered in order, through `devices` and `mems`, up to the one that ended
/// the run with `step`, and whether `used_any` tells if there were any.
pub open spec fn queue_run(
    before: VirtioBlock,
    mem_before: GuestMemory,
    after: VirtioBlock,
    mem_after: GuestMemory,
    step: BlockStep,
    used_any: bool,
    devices: Seq<VirtioBlock>,
    mems: Seq<GuestMemory>,
) -> bool {
    &&& steps_taken(devices, mems)
    &&& devices[0] == before
    &&& mems[0] == mem_before
    &&& next_step(devices.last(), mems.last(), after, mem_after, step)
    &&& step !is Continue
    &&& used_any <==> devices.len() > 1
}

/// Whether the queue was worked through up to `step`, and whether `used_any` tells if a request
/// was answered on the way.
pub open spec fn worked_through(
    before: VirtioBlock,
    mem_before: GuestMemory,
    after: VirtioBlock,
    mem_after: GuestMemory,
    step: BlockStep,
    used_any: bool,
) -> bool {
    exists|devices: Seq<VirtioBlock>, mems: Seq<GuestMemory>| #[trigger]
        queue_run(before, mem_before, after, mem_after, step, used_any, devices, mems)
}

/// After a run, the used ring holds one more entry for each chain that was taken, in the order of
/// the chains, but for one that the file engine has to work on. A run that did not end with such a
/// chain left the queue empty or met a limit.
pub proof fn law_answered_in_order(
    before: VirtioBlock,
    mem_before: GuestMemory,
    after: VirtioBlock,
    mem_after: GuestMemory,
    step: BlockStep,
    used_any: bool,
    devices: Seq<VirtioBlock>,
    mems: Seq<GuestMemory>,
)
    requires
        before.wf(),
        queue_run(before, mem_before, after, mem_after, step, used_any, devices, mems),
    ensures
        answered_in_order(before.queue, after.queue, devices.len() - 1),
        after.queue.next_avail == before.queue.next_avail + devices.len() - 1 + if step is Engine {
            1int
        } else {
            0
        },
        step matches BlockStep::Engine(work) ==> work.req.desc_idx
            == before.queue.avail@[after.queue.next_avail - 1].index,
        after.same_device(before),
        step is Stop && after.queue.pending() > 0 ==> {
            let chain = after.queue.avail@[after.queue.next_avail as int]@;
            &&& parsed(chain, mem_after, after.disk.nsectors) matches Ok(request)
            &&& limited(request, devices.last().rate_limiter)
        },
{
    lemma_steps_in_order(devices, mems);
}

/// Each step of a run adds the used entry of one chain.
proof fn lemma_steps_in_order(devices: Seq<VirtioBlock>, mems: Seq<GuestMemory>)
    requires
        steps_taken(devices, mems),
        devices[0].wf(),
    ensures
        answered_in_order(devices[0].queue, devices.last().queue, devices.len() - 1),
        devices.last().queue.next_avail == devices[0].queue.next_avail + devices.len() - 1,
        devices.last().queue.avail == devices[0].queue.avail,
        devices.last().queue.size == devices[0].queue.size,
        devices.last().same_device(devices[0]),
        devices.last().queue.next_avail <= devices[0].queue.avail@.len(),
    decreases devices.len(),
{
    if devices.len() == 1 {
        assert(devices[0].queue.used@.take(devices[0].queue.used@.len() as int)
            =~= devices[0].queue.used@);
    } else {
        let n = devices.len() - 1;
        lemma_steps_in_order(devices.take(n), mems.take(n));
        let first = devices[0].queue;
        let prior = devices[n - 1].queue;
        assert(devices.take(n).last() == devices[n - 1]);
        assert(next_step(devices[n - 1], mems[n - 1], devices[n], mems[n], BlockStep::Continue));
        let after = devices[n].queue;
        assert(after.used@.take(first.used@.len() as int) =~= prior.used@.take(
            first.used@.len() as int,
        ));
        assert forall|i: int| 0 <= i < n implies (#[trigger] after.used@[first.used@.len() + i]).id
            == first.avail@[first.next_avail + i].index by {
            if i < n - 1 {
                assert(prior.used@[first.used@.len() + i].id
                    == first.avail@[first.next_avail + i].index);
            }
        }
    }
}

impl VirtioBlock {
    /// The queue and the disk are well formed.
    pub open spec fn wf(self) -> bool {
        self.queue.wf() && self.disk.wf()
    }

    /// Whether `self` and `other` agree on all that requests do not touch.
    pub open spec fn same_device(self, other: VirtioBlock) -> bool {
        &&& self.avail_features == other.avail_features
        &&& self.acked_features == other.acked_features
        &&& self.config_space == other.config_space
        &&& self.activated == other.activated
        &&& self.id == other.id
        &&& self.partuuid == other.partuuid
        &&& self.cache_type == other.cache_type
        &&& self.root_device == other.root_device
        &&& self.read_only == other.read_only
        &&& self.disk == other.disk
    }

    /// Creates a block device on the given disk.
    pub fn new(config: VirtioBlockConfig, disk: DiskProperties) -> (r: VirtioBlock)
        requires
            disk.wf(),
        ensures
            r.wf(),
            r.avail_features == block_features(config.cache_type, config.is_read_only),
            r.acked_features == 0,
            r.config_space.capacity == disk.nsectors,
            r.queue.is_fresh(FIRECRACKER_MAX_QUEUE_SIZE),
            !r.activated,
            r.id == config.drive_id,
            r.partuuid == config.partuuid,
            r.cache_type == config.cache_type,
            r.root_device == config.is_root_device,
            r.read_only == config.is_read_only,
            r.disk == disk,
            r.rate_limiter == limiter_of(config.rate_limiter),
            !r.is_io_engine_throttled,
    {
        let mut avail_features: u64 = (1u64 << VIRTIO_F_VERSION_1) | (1u64
            << VIRTIO_RING_F_EVENT_IDX);
        if config.cache_type == CacheType::Writeback {
            avail_features = avail_features | (1u64 << VIRTIO_BLK_F_FLUSH);
        }
        if config.is_read_only {
            avail_features = avail_features | (1u64 << VIRTIO_BLK_F_RO);
        }
        VirtioBlock {
            avail_features,
            acked_features: 0,
            config_space: ConfigSpace { capacity: disk.nsectors },
            queue: Queue::new(FIRECRACKER_MAX_QUEUE_SIZE),
            activated: false,
            id: config.drive_id,
            partuuid: config.partuuid,
            cache_type: config.cache_type,
            root_device: config.is_root_device,
            read_only: config.is_read_only,
            disk,
            rate_limiter: build_limiter(config.rate_limiter),
            is_io_engine_throttled: false,
        }
    }

    /// The configuration of the device.
    pub fn config(&self) -> (r: VirtioBlockConfig)
        ensures
            r.drive_id == self.id,
            r.partuuid == self.partuuid,
            r.is_root_device == self.root_device,
            r.cache_type == self.cache_type,
            r.is_read_only == self.read_only,
            r.path_on_host == self.disk.file_path,
            r.rate_limiter == limiter_config(self.rate_limiter),
            r.file_engine_type == self.disk.file_engine_type,
    {
        VirtioBlockConfig {
            drive_id: self.id.clone(),
            partuuid: self.partuuid.clone(),
            is_root_device: self.root_device,
            cache_type: self.cache_type,
            is_read_only: self.read_only,
            path_on_host: self.disk.file_path.clone(),
            rate_limiter: describe_limiter(&self.rate_limiter),
            file_engine_type: self.disk.file_engine_type,
        }
    }

    /// Decides what an event on the queue calls for.
    pub fn process_queue_event(&self, event_was_read: bool) -> (r: QueueEventAction)
        ensures
            r == (if !event_was_read {
                QueueEventAction::ReportFailure
            } else if self.rate_limiter.timer_active {
                QueueEventAction::Throttled
            } else if self.is_io_engine_throttled {
                QueueEventAction::EngineThrottled
            } else {
                QueueEventAction::Process
            }),
    {
        if !event_was_read {
            QueueEventAction::ReportFailure
        } else if self.rate_limiter.is_blocked() {
            QueueEventAction::Throttled
        } else if self.is_io_engine_throttled {
            QueueEventAction::EngineThrottled
        } else {
            QueueEventAction::Process
        }
    }

    /// Takes the next request from the queue and works on it as far as it can without the file
    /// engine.
    pub fn process_next(&mut self, mem: &mut GuestMemory) -> (r: Result<BlockStep, InvalidAvailIdx>)
        requires
            old(self).wf(),
            old(mem).wf(),
        ensures
            final(self).wf(),
            final(mem).wf(),
            match r {
                Ok(step) => {
                    &&& old(self).queue.pending() <= old(self).queue.size
                    &&& next_step(*old(self), *old(mem), *final(self), *final(mem), step)
                },
                Err(e) => {
                    &&& old(self).queue.pending() > old(self).queue.size
                    &&& e.queue_size == old(self).queue.size
                    &&& e.pending == old(self).queue.pending()
                    &&& *final(self) == *old(self)
                    &&& *final(mem) == *old(mem)
                },
            },
    {
        let head = match self.queue.pop() {
            Err(e) => {
                return Err(e);
            },
            Ok(None) => {
                return Ok(BlockStep::Stop);
            },
            Ok(Some(head)) => head,
        };
        match Request::parse(&head, mem, self.disk.nsectors) {
            Err(_) => {
                let _ = self.queue.add_used(head.index, 0);
                Ok(BlockStep::Continue)
            },
            Ok(request) => {
                if request.rate_limit(&mut self.rate_limiter) {
                    // The chain goes back to the queue for later.
                    self.queue.undo_pop();
                    return Ok(BlockStep::Stop);
                }
                match request.process(self.disk.image_id.as_slice(), head.index, mem) {
                    Dispatch::Engine(work) => Ok(BlockStep::Engine(work)),
                    Dispatch::Executed(done) => {
                        let _ = self.queue.add_used(head.index, done.num_bytes_to_mem);
                        Ok(BlockStep::Continue)
                    },
                }
            },
        }
    }

    /// Works through the queue until the file engine is needed or nothing more can be done. Says
    /// whether a request was answered on the way.
    ///
    /// Every chain that was taken has its used entry, in order, but for one that the file engine
    /// has to work on.
    pub fn process_queue(&mut self, mem: &mut GuestMemory) -> (r: Result<
        (BlockStep, bool),
        InvalidAvailIdx,
    >)
        requires
            old(self).wf(),
            old(mem).wf(),
        ensures
            final(self).wf(),
            final(mem).wf(),
            r matches Ok(done) ==> {
                &&& old(self).queue.pending() <= old(self).queue.size
                &&& worked_through(
                    *old(self),
                    *old(mem),
                    *final(self),
                    *final(mem),
                    done.0,
                    done.1,
                )
            },
            r matches Err(e) ==> {
                &&& old(self).queue.pending() > old(self).queue.size
                &&& e.queue_size == old(self).queue.size
                &&& e.pending == old(self).queue.pending()
                &&& *final(self) == *old(self)
                &&& *final(mem) == *old(mem)
            },
    {
        let ghost before = *self;
        let ghost start = *mem;
        let ghost mut devices: Seq<VirtioBlock> = seq![before];
        let ghost mut mems: Seq<GuestMemory> = seq![start];
        let mut used_any: bool = false;
        loop
            invariant
                self.wf(),
                mem.wf(),
                before == *old(self),
                start == *old(mem),
                steps_taken(devices, mems),
                devices[0] == before,
                mems[0] == start,
                devices.last() == *self,
                mems.last() == *mem,
                used_any <==> devices.len() > 1,
                devices.len() > 1 ==> before.queue.pending() <= before.queue.size,
                self.queue.size == before.queue.size,
                self.queue.avail == before.queue.avail,
                before.queue.next_avail <= self.queue.next_avail,
            decreases self.queue.avail@.len() - self.queue.next_avail,
        {
            match self.process_next(mem) {
                Err(e) => {
                    return Err(e);
                },
                Ok(BlockStep::Continue) => {
                    used_any = true;
                    proof {
                        devices = devices.push(*self);
                        mems = mems.push(*mem);
                    }
                },
                Ok(step) => {
                    proof {
                        if devices.len() == 1 {
                            assert(devices.last() == devices[0]);
                        }
                        assert(queue_run(
                            before,
                            start,
                            *self,
                            *mem,
                            step,
                            used_any,
                            devices,
                            mems,
                        ));
                    }
                    return Ok((step, used_any));
                },
            }
        }
    }

    /// Goes on with a request once the file engine answered, and says whether the next request
    /// can be taken and whether this one was answered.
    pub fn engine_answered(
        &mut self,
        work: EngineRequest,
        answer: EngineAnswer,
        mem: &mut GuestMemory,
    ) -> (r: (BlockStep, bool))
        requires
            old(self).wf(),
            old(mem).wf(),
            old(self).queue.next_avail > 0,
            work.req.desc_idx < old(self).queue.size,
            answer matches EngineAnswer::Executed(count) ==> work.req.counts(count),
        ensures
            final(self).wf(),
            final(mem).wf(),
            final(self).same_device(*old(self)),
            final(self).rate_limiter == old(self).rate_limiter,
            final(self).queue.size == old(self).queue.size,
            final(self).queue.avail == old(self).queue.avail,
            final(self).queue.notify == old(self).queue.notify,
            final(self).queue.published == old(self).queue.published,
            final(self).queue.staged == old(self).queue.staged,
            match engine_result(work, answer, old(mem).has(work.req.status_addr as int)) {
                ProcessingResult::Submitted => {
                    &&& r == (BlockStep::Continue, false)
                    &&& final(self).queue == old(self).queue
                    &&& final(self).is_io_engine_throttled == old(self).is_io_engine_throttled
                    &&& *final(mem) == *old(mem)
                },
                ProcessingResult::Throttled => {
                    // The chain stays in the queue until the engine takes requests again.
                    &&& r == (BlockStep::Stop, false)
                    &&& final(self).queue.next_avail == old(self).queue.next_avail - 1
                    &&& final(self).queue.used == old(self).queue.used
                    &&& final(self).is_io_engine_throttled
                    &&& *final(mem) == *old(mem)
                },
                ProcessingResult::Executed(done) => {
                    &&& r == (BlockStep::Continue, true)
                    &&& final(self).queue.next_avail == old(self).queue.next_avail
                    &&& final(self).queue.used@ == old(self).queue.used@.push(
                        UsedElement { id: work.req.desc_idx, len: done.num_bytes_to_mem },
                    )
                    &&& final(self).is_io_engine_throttled == old(self).is_io_engine_throttled
                    &&& status_in_memory(
                        *old(mem),
                        *final(mem),
                        work.req,
                        outcome(
                            work.req,
                            match answer {
                                EngineAnswer::Executed(count) => Ok(count),
                                _ => Err(IoErr::FileEngine),
                            },
                        ),
                    )
                },
            },
    {
        match work.answered(answer, mem) {
            ProcessingResult::Submitted => (BlockStep::Continue, false),
            ProcessingResult::Throttled => {
                self.queue.undo_pop();
                self.is_io_engine_throttled = true;
                (BlockStep::Stop, false)
            },
            ProcessingResult::Executed(done) => {
                let _ = self.queue.add_used(work.req.desc_idx, done.num_bytes_to_mem);
                (BlockStep::Continue, true)
            },
        }
    }

    /// Lets the driver see what was used, and says which interrupt is due.
    pub fn finish_queue(&mut self, used_any: bool) -> (r: Option<VirtioInterruptType>)
        requires
            old(self).wf(),
        ensures
            final(self).wf(),
            final(self).same_device(*old(self)),
            final(self).rate_limiter == old(self).rate_limiter,
            final(self).is_io_engine_throttled == old(self).is_io_engine_throttled,
            final(self).queue.same_avail(old(self).queue),
            final(self).queue.used == old(self).queue.used,
            final(self).queue.staged == old(self).queue.staged,
            final(self).queue.published == old(self).queue.used@.len(),
            r == (if used_any && old(self).queue.notify {
                Some(VirtioInterruptType::Queue(0))
            } else {
                None
            }),
    {
        self.queue.advance_used_ring_idx();
        if used_any && self.queue.prepare_kick() {
            Some(VirtioInterruptType::Queue(0))
        } else {
            None
        }
    }

    /// Finishes the requests whose transfers the file engine completed, and says which interrupt
    /// is due.
    pub fn process_async_completion_queue(
        &mut self,
        completions: &[Completion],
        mem: &mut GuestMemory,
    ) -> (r: Option<VirtioInterruptType>)
        requires
            old(self).wf(),
            old(mem).wf(),
            forall|i: int|
                0 <= i < completions@.len() ==> (#[trigger] completions@[i]).req.desc_idx < old(
                    self,
                ).queue.size,
            forall|i: int|
                0 <= i < completions@.len() ==> ((#[trigger] completions@[i]).count matches Some(
                    count,
                ) ==> completions@[i].req.counts(count)),
        ensures
            final(self).wf(),
            final(mem).wf(),
            final(self).same_device(*old(self)),
            final(self).rate_limiter == old(self).rate_limiter,
            final(self).is_io_engine_throttled == old(self).is_io_engine_throttled,
            final(self).queue.same_avail(old(self).queue),
            final(self).queue.used@ == old(self).queue.used@ + completions@.map_values(
                |c: Completion| completion_entry(c, *old(mem)),
            ),
            final(self).queue.staged == old(self).queue.staged,
            final(self).queue.published == final(self).queue.used@.len(),
            statuses_in_memory(*old(mem), *final(mem), completions@),
            r == (if old(self).queue.notify {
                Some(VirtioInterruptType::Queue(0))
            } else {
                None
            }),
    {
        let ghost before = *self;
        let ghost start = *mem;
        let ghost entries = completions@.map_values(|c: Completion| completion_entry(c, start));
        let ghost mut trace = seq![start];
        let mut i: usize = 0;
        assert(completions@.take(0).len() == 0);
        assert(self.queue.used@ =~= before.queue.used@ + entries.take(0));
        while i < completions.len()
            invariant
                i <= completions@.len(),
                self.wf(),
                mem.wf(),
                start == *old(mem),
                mem.same_shape(start),
                self.same_device(before),
                self.rate_limiter == before.rate_limiter,
                self.is_io_engine_throttled == before.is_io_engine_throttled,
                self.queue.same_avail(before.queue),
                self.queue.staged == before.queue.staged,
                entries == completions@.map_values(|c: Completion| completion_entry(c, start)),
                self.queue.used@ == before.queue.used@ + entries.take(i as int),
                status_trace(trace, completions@.take(i as int)),
                trace[0] == start,
                trace.last() == *mem,
                forall|k: int|
                    0 <= k < completions@.len() ==> (#[trigger] completions@[k]).req.desc_idx
                        < before.queue.size,
                forall|k: int|
                    0 <= k < completions@.len() ==> ((#[trigger] completions@[k]).count matches Some(
                        count,
                    ) ==> completions@[k].req.counts(count)),
            decreases completions.len() - i,
        {
            let completion = completions[i];
            let ghost current = *mem;
            let res: Result<u32, IoErr> = match completion.count {
                Some(count) => Ok(count),
                None => Err(IoErr::FileEngine),
            };
            proof {
                mem.lemma_same_shape(start);
                assert(mem.has(completion.req.status_addr as int) == start.has(
                    completion.req.status_addr as int,
                ));
            }
            let done = completion.req.finish(mem, res);
            let _ = self.queue.add_used(done.desc_idx, done.num_bytes_to_mem);
            proof {
                let longer = trace.push(*mem);
                assert forall|k: int| 0 <= k < i + 1 implies status_in_memory(
                    longer[k],
                    #[trigger] longer[k + 1],
                    completions@[k].req,
                    outcome(completions@[k].req, completion_result(completions@[k])),
                ) by {
                    if k < i {
                        assert(longer[k + 1] == trace[k + 1]);
                    }
                }
                assert(status_trace(longer, completions@.take(i + 1)));
                trace = longer;
                assert(entries[i as int] == completion_entry(completion, start));
                assert(self.queue.used@ =~= before.queue.used@ + entries.take(i + 1));
                assert(mem.same_shape(start)) by {
                    assert forall|k: int| 0 <= k < mem.pieces().len() implies (
                    #[trigger] mem.pieces()[k]).start == start.pieces()[k].start
                        && mem.pieces()[k].data@.len() == start.pieces()[k].data@.len() by {
                        assert(current.pieces()[k].start == start.pieces()[k].start);
                    }
                }
            }
            i = i + 1;
        }
        proof {
            assert(entries.take(i as int) =~= entries);
            assert(completions@.take(i as int) =~= completions@);
        }
        self.queue.advance_used_ring_idx();
        if self.queue.prepare_kick() {
            Some(VirtioInterruptType::Queue(0))
        } else {
            None
        }
    }

    /// Once completed transfers were finished: says whether the queue is to be processed again
    /// because the file engine takes requests again.
    pub fn resume_after_completion(&mut self) -> (r: bool)
        ensures
            r == old(self).is_io_engine_throttled,
            !final(self).is_io_engine_throttled,
            final(self).same_device(*old(self)),
            final(self).queue == old(self).queue,
            final(self).rate_limiter == old(self).rate_limiter,
    {
        let throttled: bool = self.is_io_engine_throttled;
        self.is_io_engine_throttled = false;
        throttled
    }

    /// Takes over another backing file, and says which interrupt is due.
    pub fn update_disk_image(
        &mut self,
        disk_image_path: String,
        disk_size: u64,
        device_id: Option<&[u8]>,
    ) -> (r: Option<VirtioInterruptType>)
        requires
            old(self).wf(),
        ensures
            final(self).wf(),
            final(self).disk.file_path == disk_image_path,
            final(self).disk.nsectors == disk_size / SECTOR_SIZE as u64,
            final(self).disk.file_engine_type == old(self).disk.file_engine_type,
            final(self).disk.image_id@ == image_id_of(
                match device_id {
                    Some(id) => Some(id@),
                    None => None,
                },
            ),
            final(self).config_space.capacity == final(self).disk.nsectors,
            *final(self) == (VirtioBlock {
                disk: final(self).disk,
                config_space: final(self).config_space,
                ..*old(self)
            }),
            r == (if old(self).activated {
                Some(VirtioInterruptType::Config)
            } else {
                None
            }),
    {
        self.disk.update(disk_image_path, disk_size, device_id);
        self.config_space.capacity = self.disk.nsectors;
        if self.activated {
            Some(VirtioInterruptType::Config)
        } else {
            None
        }
    }

    /// Replaces limits of the drive.
    pub fn update_rate_limiter(&mut self, bytes: BucketUpdate, ops: BucketUpdate)
        ensures
            *final(self) == (VirtioBlock {
                rate_limiter: RateLimiter {
                    bandwidth: updated_bucket(old(self).rate_limiter.bandwidth, bytes),
                    ops: updated_bucket(old(self).rate_limiter.ops, ops),
                    ..old(self).rate_limiter
                },
                ..*old(self)
            }),
    {
        self.rate_limiter.update_buckets(bytes, ops);
    }

    /// What is asked of the file engine before the device is saved: transfers that are under way
    /// must complete and reach the disk. An engine that works in the background then has
    /// completions for the guest.
    pub fn prepare_save(&self) -> (r: Option<EngineRest>)
        ensures
            r == (if self.activated {
                Some(
                    EngineRest {
                        flush: true,
                        discard: false,
                        process_completions: self.disk.file_engine_type is Async,
                    },
                )
            } else {
                None
            }),
    {
        if !self.activated {
            return None;
        }
        Some(
            EngineRest {
                flush: true,
                discard: false,
                process_completions: self.disk.file_engine_type == FileEngineType::Async,
            },
        )
    }

    /// What is asked of the file engine before the device goes away: transfers that are under way
    /// must complete, and reach the disk where the drive flushes. Their completions are dropped.
    pub fn before_drop(&self) -> (r: EngineRest)
        ensures
            r == (EngineRest {
                flush: self.cache_type is Writeback,
                discard: true,
                process_completions: false,
            }),
    {
        EngineRest {
            flush: self.cache_type == CacheType::Writeback,
            discard: true,
            process_completions: false,
        }
    }

    /// The engine that performs the transfers.
    pub fn file_engine_type(&self) -> (r: FileEngineType)
        ensures
            r == self.disk.file_engine_type,
    {
        self.disk.file_engine_type
    }

    /// The bytes of the configuration space.
    pub fn config_as_bytes(&self) -> (r: Vec<u8>)
        ensures
            r@ == bytes64(self.config_space.capacity),
    {
        to_le64(self.config_space.capacity)
    }

    /// Writes to the configuration space. A write that does not lie inside has no effect, and the
    /// answer is `false`.
    pub fn write_config(&mut self, offset: u64, data: &[u8]) -> (r: bool)
        ensures
            r == (offset + data@.len() <= 8),
            *final(self) == (VirtioBlock {
                config_space: ConfigSpace {
                    capacity: le64(
                        config_written(bytes64(old(self).config_space.capacity), offset, data@),
                    ),
                },
                ..*old(self)
            }),
    {
        let mut space: Vec<u8> = to_le64(self.config_space.capacity);
        let inside: bool = write_config_bytes(&mut space, offset, data);
        assert(space@.subrange(0, 8) =~= space@);
        self.config_space.capacity = read_le64(space.as_slice(), 0);
        inside
    }

    /// Makes the device active, given that its queue is in guest memory and that the event loop was
    /// told. The answer is whether notifications are suppressed by event indices.
    pub fn activate(&mut self, queue_found: bool, event_sent: bool) -> (r: Result<
        bool,
        ActivateError,
    >)
        requires
            !old(self).activated,
        ensures
            r == (if !queue_found {
                Err(ActivateError::QueueMemoryError)
            } else if !event_sent {
                Err(ActivateError::EventFd)
            } else {
                Ok(old(self).acked_features & (1u64 << VIRTIO_RING_F_EVENT_IDX) != 0)
            }),
            *final(self) == (VirtioBlock { activated: r is Ok, ..*old(self) }),
    {
        if !queue_found {
            return Err(ActivateError::QueueMemoryError);
        }
        if !event_sent {
            return Err(ActivateError::EventFd);
        }
        self.activated = true;
        Ok(has_feature(self.acked_features, VIRTIO_RING_F_EVENT_IDX))
    }

    /// Whether the queue is worked on after an event of the limiter, which is then unblocked.
    pub fn process_rate_limiter_event(&mut self, expirations: u64) -> (r: bool)
        ensures
            r == (expirations > 0),
            *final(self) == (VirtioBlock {
                rate_limiter: RateLimiter {
                    timer_active: old(self).rate_limiter.timer_active && expirations == 0,
                    ..old(self).rate_limiter
                },
                ..*old(self)
            }),
    {
        self.rate_limiter.event_handler(expirations).is_ok()
    }
}

/// Whether the used ring grew by one entry for each of the next `n` chains, in order.
pub open spec fn answered_in_order(before: Queue, after: Queue, n: int) -> bool {
    &&& 0 <= n
    &&& before.next_avail + n <= before.avail@.len()
    &&& after.used@.len() == before.used@.len() + n
    &&& after.used@.take(before.used@.len() as int) == before.used@
    &&& forall|i: int|
        0 <= i < n ==> (#[trigger] after.used@[before.used@.len() + i]).id
            == before.avail@[before.next_avail + i].index
}

/// A block device offers version one (32) and event indices (29), flushes (9) if it caches what is
/// written, and says (5) whether it is read-only.
pub proof fn law_features_of_a_block_device(cache_type: CacheType, read_only: bool, n: u32)
    requires
        n < 64,
    ensures
        block_features(cache_type, read_only) & (1u64 << n) != 0 <==> n == 32 || n == 29 || n == 9
            && cache_type == CacheType::Writeback || n == 5 && read_only,
{
    let (a, b) = (cache_type == CacheType::Writeback, read_only);
    let base = (1u64 << 32) | (1u64 << 29);
    let flush = if a {
        base | (1u64 << 9)
    } else {
        base
    };
    let all = if b {
        flush | (1u64 << 5)
    } else {
        flush
    };
    assert((all & (1u64 << n) != 0) == (n == 32 || n == 29 || (n == 9 && a) || (n == 5 && b)))
        by (bit_vector)
        requires
            n < 64,
            all == (if b {
                (if a {
                    (1u64 << 32) | (1u64 << 29) | (1u64 << 9)
                } else {
                    (1u64 << 32) | (1u64 << 29)
                }) | (1u64 << 5)
            } else {
                (if a {
                    (1u64 << 32) | (1u64 << 29) | (1u64 << 9)
                } else {
                    (1u64 << 32) | (1u64 << 29)
                })
            }),
    ;
}

/// A drive is a file of the host exactly when its path is given and no socket is. It can be written
/// to unless it says otherwise.
pub proof fn law_file_backed_drives(value: BlockDeviceConfig)
    ensures
        file_backed(value) is Some <==> value.path_on_host is Some && value.socket is None,
        file_backed(value) matches Some(config) ==> {
            &&& Some(config.path_on_host) == value.path_on_host
            &&& config.drive_id == value.drive_id
            &&& config.partuuid == value.partuuid
            &&& config.is_root_device == value.is_root_device
            &&& config.cache_type == value.cache_type
            &&& config.rate_limiter == value.rate_limiter
            &&& config.is_read_only <==> value.is_read_only == Some(true)
            &&& value.file_engine_type is None ==> config.file_engine_type == FileEngineType::Sync
            &&& value.file_engine_type matches Some(engine) ==> config.file_engine_type == engine
        },
{
}

/// Whether the chain at the front of the queue is a request of three buffers with a given code that
/// fits the disk.
pub open spec fn asks_for(device: VirtioBlock, mem: GuestMemory, code: u32) -> bool {
    let chain = device.queue.avail@[device.queue.next_avail as int]@;
    &&& device.queue.pending() > 0
    &&& chain.descs.len() >= 3
    &&& mem.has_range(chain.descs[0].addr as int, 16)
    &&& code_in_chain(chain, mem) == code
    &&& !chain.descs[0].write_only
    &&& chain.descs[1].write_only <==> code == 0
    &&& chain.descs[1].len as int % 512 == 0
    &&& sector_in_chain(chain, mem) * 512 + chain.descs[1].len <= device.disk.nsectors * 512
    &&& chain.descs[2].write_only
    &&& chain.descs[2].len >= 1
}

/// A read (0), a write (1) or a flush (4) at the front of the queue is handed to the file engine,
/// if the limiter holds its tokens. Guest memory does not change, and the request is neither
/// answered nor kept on the queue. While the limiter is blocked, it stays on the queue.
pub proof fn law_requests_go_to_the_engine(
    before: VirtioBlock,
    mem_before: GuestMemory,
    after: VirtioBlock,
    mem_after: GuestMemory,
    step: BlockStep,
    code: u32,
)
    requires
        next_step(before, mem_before, after, mem_after, step),
        code == 0 || code == 1 || code == 4,
        asks_for(before, mem_before, code),
        before.disk.nsectors < 0x80_0000_0000_0000,
    ensures
        ({
            let chain = before.queue.avail@[before.queue.next_avail as int]@;
            let limiter = before.rate_limiter;
            let held = !limiter.timer_active && (limiter.ops matches Some(b) ==> tokens_held(b)
                >= 1) && (limiter.bandwidth matches Some(b) ==> tokens_held(b)
                >= chain.descs[1].len);
            &&& mem_after == mem_before
            &&& after.queue.used@ == before.queue.used@
            &&& held ==> {
                &&& step matches BlockStep::Engine(work)
                &&& work.op == (if code == 0 {
                    EngineOp::Read
                } else if code == 1 {
                    EngineOp::Write
                } else {
                    EngineOp::Flush
                })
                &&& code != 4 ==> work.offset == sector_in_chain(chain, mem_before) * 512
                    && work.addr == chain.descs[1].addr && work.count == chain.descs[1].len
                &&& work.req.desc_idx == chain.index
                &&& work.req.status_addr == chain.descs[2].addr
                &&& after.queue.next_avail == before.queue.next_avail + 1
            }
            &&& limiter.timer_active ==> step == BlockStep::Stop && after.queue.next_avail
                == before.queue.next_avail
        }),
{
    let chain = before.queue.avail@[before.queue.next_avail as int]@;
    law_fitting_chains_are_requests(chain, mem_before, before.disk.nsectors);
    match parsed(chain, mem_before, before.disk.nsectors) {
        Ok(request) => {
            let limiter = before.rate_limiter;
            if !limiter.timer_active && (limiter.ops matches Some(b) ==> tokens_held(b) >= 1) && (
            limiter.bandwidth matches Some(b) ==> tokens_held(b) >= chain.descs[1].len) {
                law_transfers_cost_their_bytes(request, limiter);
            }
            match engine_work(request, chain.index) {
                Some(work) => law_code_decides_the_work(
                    chain,
                    mem_before,
                    before.disk.nsectors,
                    request,
                    before.disk.image_id@,
                    chain.index,
                    mem_before,
                    Dispatch::Engine(work),
                ),
                None => {
                    assert(code_in_chain(chain, mem_before) == code);
                    crate::devices::virtio::block::request::law_code_of_parsed_requests(
                        chain,
                        mem_before,
                        before.disk.nsectors,
                        request,
                    );
                },
            }
        },
        Err(_) => {},
    }
}

/// What a transfer that came to its end is answered with: its own chain, and one byte for the status
/// on top of what was read from the disk. A transfer that failed moved nothing.
pub proof fn law_completed_transfers_are_answered(completion: Completion, mem: GuestMemory)
    requires
        completion.count matches Some(n) ==> n < u32::MAX,
    ensures
        completion_entry(completion, mem).id == completion.req.desc_idx,
        completion_entry(completion, mem).len == (if !mem.has(completion.req.status_addr as int) {
            0
        } else if completion.count is Some && (completion.req.request_type == RequestType::In
            || completion.req.request_type == RequestType::GetDeviceID) {
            completion.count->0 + 1
        } else {
            1
        }),
{
}

proof fn lemma_status_stays(
    trace: Seq<GuestMemory>,
    completions: Seq<Completion>,
    i: int,
    j: int,
)
    requires
        status_trace(trace, completions),
        0 <= i < j <= completions.len(),
        trace[0].has(completions[i].req.status_addr as int),
        forall|p: int, q: int|
            0 <= p < q < completions.len() ==> (#[trigger] completions[p]).req.status_addr != (
            #[trigger] completions[q]).req.status_addr,
    ensures
        trace[j].has(completions[i].req.status_addr as int),
        trace[j].at(completions[i].req.status_addr as int) == outcome(
            completions[i].req,
            completion_result(completions[i]),
        ).code(),
    decreases j,
{
    let addr = completions[i].req.status_addr as int;
    let c = completions[j - 1];
    lemma_memory_stays(trace, completions, addr, j - 1);
    lemma_memory_stays(trace, completions, addr, j);
    assert(status_in_memory(
        trace[j - 1],
        trace[(j - 1) + 1],
        c.req,
        outcome(c.req, completion_result(c)),
    ));
    if i < j - 1 {
        lemma_status_stays(trace, completions, i, j - 1);
        assert(c.req.status_addr != completions[i].req.status_addr);
    }
}

proof fn lemma_memory_stays(
    trace: Seq<GuestMemory>,
    completions: Seq<Completion>,
    addr: int,
    j: int,
)
    requires
        status_trace(trace, completions),
        0 <= j <= completions.len(),
        trace[0].has(addr),
    ensures
        trace[j].has(addr),
    decreases j,
{
    if j > 0 {
        lemma_memory_stays(trace, completions, addr, j - 1);
        let c = completions[j - 1];
        assert(status_in_memory(
            trace[j - 1],
            trace[(j - 1) + 1],
            c.req,
            outcome(c.req, completion_result(c)),
        ));
        trace[j].lemma_same_shape(trace[j - 1]);
    }
}

/// Every completed transfer has its own status in guest memory in the end, where the statuses do not
/// stand at one address: 0 if all of it was moved, 1 if it failed or less was moved.
pub proof fn law_every_completed_transfer_has_its_status(
    before: GuestMemory,
    after: GuestMemory,
    completions: Seq<Completion>,
    i: int,
)
    requires
        statuses_in_memory(before, after, completions),
        0 <= i < completions.len(),
        before.has(completions[i].req.status_addr as int),
        forall|p: int, q: int|
            0 <= p < q < completions.len() ==> (#[trigger] completions[p]).req.status_addr != (
            #[trigger] completions[q]).req.status_addr,
        !(completions[i].req.request_type is Unsupported),
        completions[i].req.request_type != RequestType::Flush,
    ensures
        after.at(completions[i].req.status_addr as int) == (if completions[i].count == Some(
            completions[i].req.data_len,
        ) {
            0u8
        } else {
            1u8
        }),
{
    let trace = choose|trace: Seq<GuestMemory>| #[trigger]
        status_trace(trace, completions) && trace[0] == before && trace.last() == after;
    lemma_status_stays(trace, completions, i, completions.len() as int);
}

/// The identifier of a disk image has twenty bytes: those of the identifier of its file as far as
/// there is room, and zeros behind them.
pub proof fn law_image_is_named_after_its_file(id: Seq<u8>, i: int)
    requires
        0 <= i < 20,
    ensures
        image_id_of(Some(id)).len() == 20,
        image_id_of(None).len() == 20,
        i < id.len() ==> image_id_of(Some(id))[i] == id[i],
        i >= id.len() ==> image_id_of(Some(id))[i] == 0,
        image_id_of(None)[i] == 0,
{
}

} // verus!
