//! The persistent memory device model.

use vstd::prelude::*;

use crate::devices::virtio::device::{ActivateError, VIRTIO_F_VERSION_1};
use crate::devices::virtio::queue::{
    ChainView, DescriptorChain, InvalidAvailIdx, Queue, QueueError, UsedElement,
};
use crate::rate_limiter::{
    consumed_op, grants_op, updated_bucket, BucketUpdate, RateLimiter,
};
use crate::vmm_config::pmem::PmemConfig;
use crate::vmm_config::rate_limit::{build_limiter, limiter_of};
use crate::vstate::guest_memory::{bytes32, bytes64, le32, to_le32, to_le64, GuestMemory};
use crate::vstate::resources::{
    address_allocate_first, address_free, allocated_ranges, can_hand_out, can_stand, free_ranges,
    has_room, is_power_of_two, law_lowest_place_is_taken, law_room_is_a_place, placed_first,
    same_ranges, tracks_some, ResourceAllocator,
};

verus! {

/// Address and size of the device are multiples of this.
pub const ALIGNMENT: u64 = 0x20_0000;

/// Request: write the memory back to the file.
pub const VIRTIO_PMEM_REQ_TYPE_FLUSH: u32 = 0;

/// Status of a flush that succeeded.
pub const SUCCESS: u32 = 0;

/// Status of a flush that failed, minus one in two's complement.
pub const FAILURE: u32 = 0xffff_ffff;

/// Protection of a mapping: it can be read.
pub const PROT_READ: i32 = 1;

/// Protection of a mapping: it can be written.
pub const PROT_WRITE: i32 = 2;

/// A mapping that writes through to its file.
pub const MAP_SHARED: i32 = 1;

/// A mapping that keeps what is written to itself.
pub const MAP_PRIVATE: i32 = 2;

/// A mapping at exactly the given address.
pub const MAP_FIXED: i32 = 0x10;

/// A mapping without a file.
pub const MAP_ANONYMOUS: i32 = 0x20;

/// A mapping without reserved swap space.
pub const MAP_NORESERVE: i32 = 0x4000;

/// Flag of a memory slot that the guest cannot write.
pub const KVM_MEM_READONLY: u32 = 2;

/// Why an operation on a persistent memory device failed.
#[derive(Debug, Clone, Copy, PartialEq, Eq, Structural)]
pub enum PmemError {
    /// There is no room in the address space of the guest.
    AllocationFailed,
    /// The memory slot was refused, with an error number.
    SetUserMemoryRegion(i32),
    /// There is no free memory slot.
    NoKvmSlotAvailable,
    /// The backing file cannot be opened or mapped, with an error number.
    BackingFile(i32),
    /// The backing file is empty.
    BackingFileZeroSize,
    /// The status cannot be written by the device.
    ReadOnlyDescriptor,
    /// The request cannot be read by the device.
    WriteOnlyDescriptor,
    /// The request has this length instead of four.
    Non4byteHeadDescriptor(u32),
    /// The status has this length instead of four.
    Non4byteStatusDescriptor(u32),
    /// The request is not known.
    UnknownRequestType(u32),
    /// There is no room for the status.
    DescriptorChainTooShort,
    /// Guest memory cannot be accessed.
    GuestMemory,
    /// The used ring refused an entry.
    Queue(QueueError),
    /// The driver made too many chains available.
    QueuePop(InvalidAvailIdx),
}

/// What the guest sees of the configuration.
#[derive(Debug, Clone, Copy, PartialEq, Eq, Structural)]
pub struct ConfigSpace {
    /// Guest address of the first byte.
    pub start: u64,
    /// Number of bytes.
    pub size: u64,
}

/// The lowest multiple of the alignment that is no less than `n`.
pub open spec fn aligned_up(n: int) -> int {
    (n + ALIGNMENT - 1) / ALIGNMENT as int * ALIGNMENT
}

/// A length is never cut short, grows by less than the alignment, and ends up on a multiple of it.
pub proof fn law_aligned_up(n: int)
    requires
        0 <= n,
    ensures
        n <= aligned_up(n) < n + ALIGNMENT,
        aligned_up(n) % (ALIGNMENT as int) == 0,
        n % (ALIGNMENT as int) == 0 ==> aligned_up(n) == n,
{
}

/// A memory mapping to be made.
#[derive(Debug, Clone, Copy, PartialEq, Eq, Structural)]
pub struct MmapCall {
    /// Number of bytes.
    pub len: u64,
    /// Protection.
    pub prot: i32,
    /// Flags.
    pub flags: i32,
    /// Whether the backing file is mapped.
    pub of_file: bool,
}

/// The mappings by which a backing file becomes memory of the device. A file whose length is not
/// aligned is mapped over the start of a longer anonymous mapping.
#[derive(Debug, Clone, Copy, PartialEq, Eq, Structural)]
pub struct MmapPlan {
    /// Length of the backing file.
    pub file_len: u64,
    /// Length of the memory.
    pub mmap_len: u64,
    /// The mapping anywhere in the address space.
    pub base: MmapCall,
    /// The mapping at the start of the first one, if one is needed.
    pub over: Option<MmapCall>,
}

/// The protection of the mappings.
pub open spec fn protection(read_only: bool) -> i32 {
    if read_only {
        PROT_READ
    } else {
        PROT_READ | PROT_WRITE
    }
}

/// The mappings for a file of a given length.
pub open spec fn planned(file_len: u64, read_only: bool) -> MmapPlan {
    let prot = protection(read_only);
    let mmap_len = aligned_up(file_len as int) as u64;
    if mmap_len == file_len {
        MmapPlan {
            file_len,
            mmap_len,
            base: MmapCall { len: file_len, prot, flags: MAP_SHARED | MAP_NORESERVE, of_file: true },
            over: None,
        }
    } else {
        MmapPlan {
            file_len,
            mmap_len,
            base: MmapCall {
                len: mmap_len,
                prot,
                flags: MAP_PRIVATE | MAP_NORESERVE | MAP_ANONYMOUS,
                of_file: false,
            },
            over: Some(
                MmapCall {
                    len: file_len,
                    prot,
                    flags: MAP_SHARED | MAP_NORESERVE | MAP_FIXED,
                    of_file: true,
                },
            ),
        }
    }
}

impl MmapPlan {
    /// Plans the mappings for a file of a given length.
    pub fn new(file_len: u64, read_only: bool) -> (r: Result<MmapPlan, PmemError>)
        requires
            file_len <= i64::MAX,
        ensures
            r == (if file_len == 0 {
                Err(PmemError::BackingFileZeroSize)
            } else {
                Ok(planned(file_len, read_only))
            }),
    {
        if file_len == 0 {
            return Err(PmemError::BackingFileZeroSize);
        }
        let mut prot: i32 = PROT_READ;
        if !read_only {
            prot = prot | PROT_WRITE;
        }
        let mmap_len: u64 = (file_len + (ALIGNMENT - 1)) / ALIGNMENT * ALIGNMENT;
        if mmap_len == file_len {
            Ok(
                MmapPlan {
                    file_len,
                    mmap_len,
                    base: MmapCall {
                        len: file_len,
                        prot,
                        flags: MAP_SHARED | MAP_NORESERVE,
                        of_file: true,
                    },
                    over: None,
                },
            )
        } else {
            Ok(
                MmapPlan {
                    file_len,
                    mmap_len,
                    base: MmapCall {
                        len: mmap_len,
                        prot,
                        flags: MAP_PRIVATE | MAP_NORESERVE | MAP_ANONYMOUS,
                        of_file: false,
                    },
                    over: Some(
                        MmapCall {
                            len: file_len,
                            prot,
                            flags: MAP_SHARED | MAP_NORESERVE | MAP_FIXED,
                            of_file: true,
                        },
                    ),
                },
            )
        }
    }
}

/// The memory of a device in the address space of the host.
#[derive(Debug, Clone, Copy, PartialEq, Eq, Structural)]
pub struct PmemMmap {
    /// Length of the backing file.
    pub file_len: u64,
    /// Host address of the first byte.
    pub mmap_ptr: u64,
    /// Number of bytes.
    pub mmap_len: u64,
}

impl PmemMmap {
    /// The memory that came of a plan, from the answers to its mappings: an address, or an error
    /// number. The second answer counts only where the plan has a second mapping.
    pub fn new(plan: &MmapPlan, base: Result<u64, i32>, over: Result<u64, i32>) -> (r: Result<
        PmemMmap,
        PmemError,
    >)
        ensures
            r == (match base {
                Err(e) => Err(PmemError::BackingFile(e)),
                Ok(mmap_ptr) => if plan.over is Some && over is Err {
                    Err(PmemError::BackingFile(over->Err_0))
                } else {
                    Ok(PmemMmap { file_len: plan.file_len, mmap_ptr, mmap_len: plan.mmap_len })
                },
            }),
    {
        let mmap_ptr: u64 = match base {
            Ok(mmap_ptr) => mmap_ptr,
            Err(e) => {
                return Err(PmemError::BackingFile(e));
            },
        };
        if plan.over.is_some() {
            if let Err(e) = over {
                return Err(PmemError::BackingFile(e));
            }
        }
        Ok(PmemMmap { file_len: plan.file_len, mmap_ptr, mmap_len: plan.mmap_len })
    }
}

/// The place of a device in the address space of the guest.
#[derive(Debug)]
pub struct GuestPmemRegion {
    /// What the guest sees of the configuration.
    pub config_space: ConfigSpace,
}

/// Whether the address allocators that do not serve persistent memory, and the interrupt lines, are
/// the same.
pub open spec fn same_but_past_mmio64(a: ResourceAllocator, b: ResourceAllocator) -> bool {
    a == (ResourceAllocator { past_mmio64_memory: a.past_mmio64_memory, ..b })
}

/// What it means that a place of `size` bytes is asked for.
pub open spec fn region_answer(
    before: ResourceAllocator,
    after: ResourceAllocator,
    size: u64,
    r: Result<ConfigSpace, PmemError>,
) -> bool {
    let a = before.past_mmio64_memory;
    let b = after.past_mmio64_memory;
    &&& same_but_past_mmio64(after, before)
    &&& size == 0 || !has_room(a, size as int, ALIGNMENT as int) ==> r is Err && same_ranges(a, b)
    &&& size != 0 && has_room(a, size as int, ALIGNMENT as int) && can_hand_out(a) ==> r is Ok
    &&& r is Err ==> r->Err_0 == PmemError::AllocationFailed
    &&& r matches Ok(c) ==> c.size == size && placed_first(
        a,
        b,
        c.start as int,
        size as int,
        ALIGNMENT as int,
    )
}

/// Whether a place was taken and given back.
pub open spec fn taken_and_released(
    before: ResourceAllocator,
    after: ResourceAllocator,
    size: u64,
) -> bool {
    exists|mid: ResourceAllocator, c: ConfigSpace|
        #![trigger released(mid, after, c)]
        region_answer(before, mid, size, Ok(c)) && released(mid, after, c)
}

impl GuestPmemRegion {
    /// Takes a place behind the 64-bit MMIO address space.
    pub fn new(resources: &mut ResourceAllocator, size: u64) -> (r: Result<
        GuestPmemRegion,
        PmemError,
    >)
        ensures
            region_answer(
                *old(resources),
                *final(resources),
                size,
                match r {
                    Ok(region) => Ok(region.config_space),
                    Err(e) => Err(e),
                },
            ),
    {
        assert(is_power_of_two(ALIGNMENT)) by {
            assert(0x20_0000u64 & 0x1f_ffffu64 == 0) by (bit_vector);
        }
        match address_allocate_first(&mut resources.past_mmio64_memory, size, ALIGNMENT) {
            Ok(start) => Ok(GuestPmemRegion { config_space: ConfigSpace { start, size } }),
            Err(_) => Err(PmemError::AllocationFailed),
        }
    }

    /// A place that is taken already.
    pub fn from_state(config_space: ConfigSpace) -> (r: GuestPmemRegion)
        ensures
            r.config_space == config_space,
    {
        GuestPmemRegion { config_space }
    }

    /// Gives the place back.
    pub fn release(self, resources: &mut ResourceAllocator)
        requires
            self.config_space.size > 0,
            self.config_space.start + self.config_space.size - 1 <= u64::MAX,
        ensures
            released(*old(resources), *final(resources), self.config_space),
    {
        let start: u64 = self.config_space.start;
        let end: u64 = start + (self.config_space.size - 1);
        let _ = address_free(&mut resources.past_mmio64_memory, start, end);
    }
}

/// Whether a place was given back: one that was taken is not any more, and one that is not known
/// makes no difference where other places are. The claim leaves out places at the ends of the
/// 64-bit range.
pub open spec fn released(
    before: ResourceAllocator,
    after: ResourceAllocator,
    c: ConfigSpace,
) -> bool {
    let a = before.past_mmio64_memory;
    let b = after.past_mmio64_memory;
    let range = (c.start as int, c.start + c.size - 1);
    &&& same_but_past_mmio64(after, before)
    &&& allocated_ranges(a).contains(range) && c.start > 1 && range.1 < u64::MAX - 1
        && crate::vstate::resources::can_grow(a) ==> allocated_ranges(b) == allocated_ranges(
        a,
    ).remove(range)
    &&& tracks_some(a) && !allocated_ranges(a).contains(range) && !free_ranges(a).contains(range)
        ==> same_ranges(a, b)
}

/// A range of guest memory that the host backs.
#[derive(Debug, Clone, Copy, PartialEq, Eq, Structural)]
pub struct UserMemoryRegion {
    /// Number of the slot.
    pub slot: u32,
    /// Guest address of the first byte.
    pub guest_phys_addr: u64,
    /// Number of bytes; zero removes the slot.
    pub memory_size: u64,
    /// Host address of the first byte.
    pub userspace_addr: u64,
    /// Flags.
    pub flags: u32,
}

/// The memory slot of a device.
#[derive(Debug, Clone, Copy, PartialEq, Eq, Structural)]
pub struct KvmMemSlot {
    /// Number of the slot.
    pub slot: u32,
}

impl KvmMemSlot {
    /// The region to be set up for a device in a slot.
    pub fn new(
        slot: Option<u32>,
        gpa: u64,
        memory_size: u64,
        hva: u64,
        flags: u32,
    ) -> (r: Result<(KvmMemSlot, UserMemoryRegion), PmemError>)
        ensures
            r == (match slot {
                Some(slot) => Ok(
                    (
                        KvmMemSlot { slot },
                        UserMemoryRegion {
                            slot,
                            guest_phys_addr: gpa,
                            memory_size,
                            userspace_addr: hva,
                            flags,
                        },
                    ),
                ),
                None => Err(PmemError::NoKvmSlotAvailable),
            }),
    {
        match slot {
            Some(slot) => Ok(
                (
                    KvmMemSlot { slot },
                    UserMemoryRegion {
                        slot,
                        guest_phys_addr: gpa,
                        memory_size,
                        userspace_addr: hva,
                        flags,
                    },
                ),
            ),
            None => Err(PmemError::NoKvmSlotAvailable),
        }
    }

    /// The region that removes the slot.
    pub fn release(self) -> (r: UserMemoryRegion)
        ensures
            r == (UserMemoryRegion {
                slot: self.slot,
                guest_phys_addr: 0,
                memory_size: 0,
                userspace_addr: 0,
                flags: 0,
            }),
    {
        UserMemoryRegion {
            slot: self.slot,
            guest_phys_addr: 0,
            memory_size: 0,
            userspace_addr: 0,
            flags: 0,
        }
    }
}

/// A virtio persistent memory device.
#[derive(Debug)]
pub struct Pmem {
    /// Features on offer.
    pub avail_features: u64,
    /// Features that the driver accepted.
    pub acked_features: u64,
    /// Whether the device is active.
    pub activated: bool,
    /// The queue of requests.
    pub queue: Queue,
    /// The memory slot.
    pub kvm_mem_slot: KvmMemSlot,
    /// The place in the address space of the guest.
    pub guest_region: GuestPmemRegion,
    /// The memory in the address space of the host.
    pub mmap: PmemMmap,
    /// Limits on flushes.
    pub rate_limiter: RateLimiter,
    /// Configuration.
    pub config: PmemConfig,
}

/// Where the status of a flush goes, or why a chain is no flush.
pub open spec fn flush_target(chain: ChainView, mem: GuestMemory) -> Result<u64, PmemError> {
    let head = chain.descs[0];
    if head.write_only {
        Err(PmemError::WriteOnlyDescriptor)
    } else if head.len != 4 {
        Err(PmemError::Non4byteHeadDescriptor(head.len))
    } else if !mem.has_range(head.addr as int, 4) {
        Err(PmemError::GuestMemory)
    } else if le32(mem.bytes(head.addr as int, 4)) != VIRTIO_PMEM_REQ_TYPE_FLUSH {
        Err(PmemError::UnknownRequestType(le32(mem.bytes(head.addr as int, 4))))
    } else if chain.descs.len() < 2 {
        Err(PmemError::DescriptorChainTooShort)
    } else if !chain.descs[1].write_only {
        Err(PmemError::ReadOnlyDescriptor)
    } else if chain.descs[1].len != 4 {
        Err(PmemError::Non4byteStatusDescriptor(chain.descs[1].len))
    } else {
        Ok(chain.descs[1].addr)
    }
}

/// The status of a flush.
pub open spec fn flush_status(synced: bool) -> u32 {
    if synced {
        SUCCESS
    } else {
        FAILURE
    }
}

/// What comes of one chain: a flush has its status written, and anything else changes nothing.
pub open spec fn flush_step(
    chain: ChainView,
    before: GuestMemory,
    after: GuestMemory,
    synced: bool,
    r: Result<(), PmemError>,
) -> bool {
    match flush_target(chain, before) {
        Err(e) => after == before && r is Err && r->Err_0 == e,
        Ok(addr) => {
            let status = bytes32(flush_status(synced));
            &&& after.written(before, addr as int, status.take(before.reach(addr as int, 4) as int))
            &&& after.wf()
            &&& r == (if before.has_range(addr as int, 4) {
                Ok(())
            } else {
                Err(PmemError::GuestMemory)
            })
        },
    }
}

/// Whether the guest memories `mems` and the answers `results` are those of the chains, worked on
/// one after the other.
pub open spec fn flush_trace(
    chains: Seq<ChainView>,
    mems: Seq<GuestMemory>,
    results: Seq<Result<(), PmemError>>,
    synced: bool,
) -> bool {
    &&& mems.len() == chains.len() + 1
    &&& results.len() == chains.len()
    &&& forall|i: int|
        0 <= i < chains.len() ==> #[trigger] flush_step(
            chains[i],
            mems[i],
            mems[i + 1],
            synced,
            results[i],
        )
}

/// The used entries of chains with given answers: four bytes are written for a flush, none
/// otherwise.
pub open spec fn flush_entries(
    chains: Seq<ChainView>,
    results: Seq<Result<(), PmemError>>,
) -> Seq<UsedElement> {
    Seq::new(
        chains.len(),
        |i: int|
            UsedElement {
                id: chains[i].index,
                len: if results[i] is Ok {
                    4
                } else {
                    0
                },
            },
    )
}

/// Whether some chain that waits is a flush.
pub open spec fn some_flush(chains: Seq<ChainView>, mem: GuestMemory) -> bool {
    exists|i: int| 0 <= i < chains.len() && flush_target(#[trigger] chains[i], mem) is Ok
}

/// Where no chain is a flush, guest memory stays as it is and every chain is answered with nothing
/// written, whatever a write-back would have given.
pub proof fn law_no_flush_no_write(
    chains: Seq<ChainView>,
    mems: Seq<GuestMemory>,
    results: Seq<Result<(), PmemError>>,
    synced: bool,
    n: int,
)
    requires
        flush_trace(chains, mems, results, synced),
        !some_flush(chains, mems[0]),
        0 <= n <= chains.len(),
    ensures
        mems[n] == mems[0],
        forall|i: int| 0 <= i < n ==> (#[trigger] results[i]) is Err,
    decreases n,
{
    if n > 0 {
        law_no_flush_no_write(chains, mems, results, synced, n - 1);
        assert(flush_step(chains[n - 1], mems[n - 1], mems[n - 1 + 1], synced, results[n - 1]));
        assert(flush_target(chains[n - 1], mems[0]) is Err);
    }
}

impl Pmem {
    /// The queue is well formed.
    pub open spec fn wf(self) -> bool {
        self.queue.wf()
    }

    /// Creates a device over memory of the host. Its place in the address space of the guest is
    /// taken now, or was taken before. Where no memory slot is left, the place is given back.
    ///
    /// The second part of the answer is the region to be set up.
    pub fn new_with_queues(
        resources: &mut ResourceAllocator,
        slot: Option<u32>,
        mmap: PmemMmap,
        config: PmemConfig,
        queue: Queue,
        acked_features: u64,
        config_space: Option<ConfigSpace>,
    ) -> (r: Result<(Pmem, UserMemoryRegion), PmemError>)
        requires
            queue.wf(),
            slot is None ==> (config_space matches Some(c) ==> c.size > 0 && c.start + c.size - 1
                <= u64::MAX),
        ensures
            config_space is None ==> match r {
                Ok((pmem, _)) => slot is Some && region_answer(
                    *old(resources),
                    *final(resources),
                    mmap.mmap_len,
                    Ok(pmem.guest_region.config_space),
                ),
                Err(e) => if e == PmemError::NoKvmSlotAvailable {
                    slot is None && taken_and_released(
                        *old(resources),
                        *final(resources),
                        mmap.mmap_len,
                    )
                } else {
                    e == PmemError::AllocationFailed && region_answer(
                        *old(resources),
                        *final(resources),
                        mmap.mmap_len,
                        Err(PmemError::AllocationFailed),
                    )
                },
            },
            config_space matches Some(c) ==> {
                &&& r is Ok <==> slot is Some
                &&& r is Ok ==> *final(resources) == *old(resources)
                &&& r is Err ==> r->Err_0 == PmemError::NoKvmSlotAvailable && released(
                    *old(resources),
                    *final(resources),
                    c,
                )
            },
            r matches Ok((pmem, region)) ==> {
                let c = pmem.guest_region.config_space;
                &&& config_space matches Some(given) ==> c == given
                &&& region == (UserMemoryRegion {
                    slot: slot->Some_0,
                    guest_phys_addr: c.start,
                    memory_size: c.size,
                    userspace_addr: mmap.mmap_ptr,
                    flags: if config.read_only {
                        KVM_MEM_READONLY
                    } else {
                        0
                    },
                })
                &&& pmem.avail_features == 1u64 << VIRTIO_F_VERSION_1
                &&& pmem.acked_features == acked_features
                &&& !pmem.activated
                &&& pmem.queue == queue
                &&& pmem.kvm_mem_slot.slot == slot->Some_0
                &&& pmem.mmap == mmap
                &&& pmem.rate_limiter == limiter_of(config.rate_limiter)
                &&& pmem.config == config
            },
    {
        let guest_region = match config_space {
            Some(c) => GuestPmemRegion::from_state(c),
            None => match GuestPmemRegion::new(resources, mmap.mmap_len) {
                Ok(region) => region,
                Err(e) => {
                    return Err(e);
                },
            },
        };
        let c = guest_region.config_space;
        let ghost mid = *resources;
        let flags: u32 = if config.read_only {
            KVM_MEM_READONLY
        } else {
            0
        };
        let (kvm_mem_slot, region) = match KvmMemSlot::new(
            slot,
            c.start,
            c.size,
            mmap.mmap_ptr,
            flags,
        ) {
            Ok(both) => both,
            Err(e) => {
                guest_region.release(resources);
                assert(released(mid, *resources, c));
                return Err(e);
            },
        };
        let rate_limiter = build_limiter(config.rate_limiter);
        Ok(
            (
                Pmem {
                    avail_features: 1u64 << VIRTIO_F_VERSION_1,
                    acked_features,
                    activated: false,
                    queue,
                    kvm_mem_slot,
                    guest_region,
                    mmap,
                    rate_limiter,
                    config,
                },
                region,
            ),
        )
    }

    /// Whether the chains that wait may be worked on now: there are some, and the limiter grants
    /// one operation that writes the whole file back.
    pub fn take_turn(&mut self) -> (r: bool)
        requires
            old(self).wf(),
        ensures
            r == (old(self).queue.pending() > 0 && grants_op(
                old(self).rate_limiter,
                old(self).mmap.file_len,
            )),
            *final(self) == (Pmem {
                rate_limiter: if old(self).queue.pending() > 0 {
                    consumed_op(old(self).rate_limiter, old(self).mmap.file_len)
                } else {
                    old(self).rate_limiter
                },
                ..*old(self)
            }),
    {
        if self.queue.is_empty() {
            return false;
        }
        self.rate_limiter.consume_op(self.mmap.file_len)
    }

    /// Whether the chains that wait may be worked on after the driver gave notice. A limiter that
    /// waits for its timer is not asked.
    pub fn process_queue(&mut self, event_was_read: bool) -> (r: bool)
        requires
            old(self).wf(),
        ensures
            !event_was_read || old(self).rate_limiter.timer_active ==> !r && *final(self) == *old(
                self,
            ),
            event_was_read && !old(self).rate_limiter.timer_active ==> {
                &&& r == (old(self).queue.pending() > 0 && grants_op(
                    old(self).rate_limiter,
                    old(self).mmap.file_len,
                ))
                &&& *final(self) == (Pmem {
                    rate_limiter: if old(self).queue.pending() > 0 {
                        consumed_op(old(self).rate_limiter, old(self).mmap.file_len)
                    } else {
                        old(self).rate_limiter
                    },
                    ..*old(self)
                })
            },
    {
        if !event_was_read || self.rate_limiter.is_blocked() {
            return false;
        }
        self.take_turn()
    }

    /// Whether the chains that wait may be worked on after the guest was resumed, which asks for
    /// it if the device is active.
    pub fn kick(&mut self) -> (r: bool)
        requires
            old(self).wf(),
        ensures
            !old(self).activated ==> !r && *final(self) == *old(self),
            old(self).activated ==> {
                &&& r == (old(self).queue.pending() > 0 && grants_op(
                    old(self).rate_limiter,
                    old(self).mmap.file_len,
                ))
                &&& *final(self) == (Pmem {
                    rate_limiter: if old(self).queue.pending() > 0 {
                        consumed_op(old(self).rate_limiter, old(self).mmap.file_len)
                    } else {
                        old(self).rate_limiter
                    },
                    ..*old(self)
                })
            },
    {
        if !self.activated {
            return false;
        }
        self.take_turn()
    }

    /// Whether the chains that wait may be worked on after an event of the limiter, which is then
    /// unblocked.
    pub fn process_rate_limiter_event(&mut self, expirations: u64) -> (r: bool)
        requires
            old(self).wf(),
        ensures
            expirations == 0 ==> !r && *final(self) == *old(self),
            expirations > 0 ==> {
                let limiter = RateLimiter { timer_active: false, ..old(self).rate_limiter };
                &&& r == (old(self).queue.pending() > 0 && grants_op(
                    limiter,
                    old(self).mmap.file_len,
                ))
                &&& *final(self) == (Pmem {
                    rate_limiter: if old(self).queue.pending() > 0 {
                        consumed_op(limiter, old(self).mmap.file_len)
                    } else {
                        limiter
                    },
                    ..*old(self)
                })
            },
    {
        match self.rate_limiter.event_handler(expirations) {
            Ok(()) => self.take_turn(),
            Err(_) => false,
        }
    }

    /// Makes the device active, given that its queue is in guest memory and that the event loop was
    /// told.
    pub fn activate(&mut self, queue_found: bool, event_sent: bool) -> (r: Result<
        (),
        ActivateError,
    >)
        requires
            !old(self).activated,
        ensures
            r == (if !queue_found {
                Err(ActivateError::QueueMemoryError)
            } else if !event_sent {
                Err(ActivateError::EventFd)
            } else {
                Ok(())
            }),
            *final(self) == (Pmem { activated: r is Ok, ..*old(self) }),
    {
        if !queue_found {
            return Err(ActivateError::QueueMemoryError);
        }
        if !event_sent {
            return Err(ActivateError::EventFd);
        }
        self.activated = true;
        Ok(())
    }

    // Tells where the status of a flush goes, or why a chain is no flush.
    fn check_chain(head: &DescriptorChain, mem: &GuestMemory) -> (r: Result<u64, PmemError>)
        requires
            mem.wf(),
        ensures
            r == flush_target(head@, *mem),
    {
        if head.head.write_only {
            return Err(PmemError::WriteOnlyDescriptor);
        }
        if head.head.len != 4 {
            return Err(PmemError::Non4byteHeadDescriptor(head.head.len));
        }
        let request: u32 = match mem.read_u32(head.head.addr) {
            Some(request) => request,
            None => {
                return Err(PmemError::GuestMemory);
            },
        };
        if request != VIRTIO_PMEM_REQ_TYPE_FLUSH {
            return Err(PmemError::UnknownRequestType(request));
        }
        let status = match head.get(1) {
            Some(status) => status,
            None => {
                return Err(PmemError::DescriptorChainTooShort);
            },
        };
        if !status.write_only {
            return Err(PmemError::ReadOnlyDescriptor);
        }
        if status.len != 4 {
            return Err(PmemError::Non4byteStatusDescriptor(status.len));
        }
        Ok(status.addr)
    }

    /// Whether the file has to be written back before the chains that wait are worked on. One
    /// write-back serves all of them.
    pub fn needs_sync(&self, mem: &GuestMemory) -> (r: bool)
        requires
            self.wf(),
            mem.wf(),
        ensures
            r == (self.queue.pending() <= self.queue.size && some_flush(
                self.queue.waiting(),
                *mem,
            )),
    {
        let pending: usize = self.queue.avail.len() - self.queue.next_avail;
        if pending > self.queue.size as usize {
            return false;
        }
        let ghost chains = self.queue.waiting();
        let mut i: usize = self.queue.next_avail;
        while i < self.queue.avail.len()
            invariant
                self.wf(),
                mem.wf(),
                self.queue.pending() <= self.queue.size,
                chains == self.queue.waiting(),
                self.queue.next_avail <= i <= self.queue.avail@.len(),
                forall|k: int|
                    0 <= k < i - self.queue.next_avail ==> flush_target(
                        #[trigger] chains[k],
                        *mem,
                    ) is Err,
            decreases self.queue.avail.len() - i,
        {
            let target = Self::check_chain(&self.queue.avail[i], mem);
            assert(chains[i - self.queue.next_avail] == self.queue.avail@[i as int]@);
            if target.is_ok() {
                assert(flush_target(chains[i - self.queue.next_avail], *mem) is Ok);
                return true;
            }
            i = i + 1;
        }
        false
    }

    /// Works on one chain.
    pub fn process_chain(head: &DescriptorChain, mem: &mut GuestMemory, synced: bool) -> (r: Result<
        (),
        PmemError,
    >)
        requires
            old(mem).wf(),
        ensures
            final(mem).wf(),
            flush_step(head@, *old(mem), *final(mem), synced, r),
    {
        let addr: u64 = match Self::check_chain(head, mem) {
            Ok(addr) => addr,
            Err(e) => {
                return Err(e);
            },
        };
        let status: Vec<u8> = to_le32(
            if synced {
                SUCCESS
            } else {
                FAILURE
            },
        );
        if mem.write(addr, status.as_slice()) {
            Ok(())
        } else {
            Err(PmemError::GuestMemory)
        }
    }

    /// Works on the chains that wait, after the file was written back with the given success. The
    /// answer says whether the guest is to be interrupted.
    pub fn handle_queue(&mut self, mem: &mut GuestMemory, synced: bool) -> (r: Result<
        bool,
        PmemError,
    >)
        requires
            old(self).wf(),
            old(mem).wf(),
        ensures
            final(self).wf(),
            final(mem).wf(),
            *final(self) == (Pmem { queue: final(self).queue, ..*old(self) }),
            old(self).queue.pending() > old(self).queue.size ==> {
                &&& r matches Err(PmemError::QueuePop(e))
                &&& e.pending == old(self).queue.pending()
                &&& e.queue_size == old(self).queue.size
                &&& *final(mem) == *old(mem)
                &&& final(self).queue == old(self).queue
            },
            old(self).queue.pending() <= old(self).queue.size ==> {
                let chains = old(self).queue.waiting();
                &&& r == Ok::<bool, PmemError>(old(self).queue.notify)
                &&& final(self).queue.pending() == 0
                &&& final(self).queue.avail == old(self).queue.avail
                &&& final(self).queue.size == old(self).queue.size
                &&& final(self).queue.staged == old(self).queue.staged
                &&& final(self).queue.notify == old(self).queue.notify
                &&& final(self).queue.published == final(self).queue.used@.len()
                &&& exists|mems: Seq<GuestMemory>, results: Seq<Result<(), PmemError>>|
                    {
                        &&& #[trigger] flush_trace(chains, mems, results, synced)
                        &&& mems[0] == *old(mem)
                        &&& mems.last() == *final(mem)
                        &&& final(self).queue.used@ == old(self).queue.used@ + flush_entries(
                            chains,
                            results,
                        )
                    }
            },
    {
        let ghost start = self.queue;
        let ghost chains = start.waiting();
        let ghost mut mems: Seq<GuestMemory> = seq![*mem];
        let ghost mut results: Seq<Result<(), PmemError>> = seq![];
        assert(self.queue.used@ =~= start.used@ + flush_entries(chains.take(0), results));
        loop
            invariant
                self.queue.wf(),
                mem.wf(),
                start == old(self).queue,
                start.wf(),
                chains == start.waiting(),
                *self == (Pmem { queue: self.queue, ..*old(self) }),
                self.queue.size == start.size,
                self.queue.avail == start.avail,
                self.queue.staged == start.staged,
                self.queue.notify == start.notify,
                start.next_avail <= self.queue.next_avail,
                self.queue.next_avail > start.next_avail ==> start.pending() <= start.size,
                self.queue.next_avail == start.next_avail ==> *mem == *old(mem) && self.queue
                    == start,
                results.len() == self.queue.next_avail - start.next_avail,
                flush_trace(chains.take(results.len() as int), mems, results, synced),
                mems[0] == *old(mem),
                mems.last() == *mem,
                self.queue.used@ == start.used@ + flush_entries(
                    chains.take(results.len() as int),
                    results,
                ),
            decreases self.queue.avail@.len() - self.queue.next_avail,
        {
            let ghost n = results.len() as int;
            let head = match self.queue.pop() {
                Err(e) => {
                    return Err(PmemError::QueuePop(e));
                },
                Ok(None) => {
                    assert(chains.take(n) =~= chains);
                    self.queue.advance_used_ring_idx();
                    return Ok(self.queue.prepare_kick());
                },
                Ok(Some(head)) => head,
            };
            assert(chains[n] == head@);
            let ghost before = *mem;
            let outcome = Self::process_chain(&head, mem, synced);
            let len: u32 = if outcome.is_ok() {
                4
            } else {
                0
            };
            if self.queue.add_used(head.index, len).is_err() {
                self.queue.advance_used_ring_idx();
                return Ok(self.queue.prepare_kick());
            }
            proof {
                let longer = mems.push(*mem);
                let more = results.push(outcome);
                let done = chains.take(n + 1);
                assert forall|i: int| 0 <= i < done.len() implies #[trigger] flush_step(
                    done[i],
                    longer[i],
                    longer[i + 1],
                    synced,
                    more[i],
                ) by {
                    if i < n {
                        assert(flush_step(
                            chains.take(n)[i],
                            mems[i],
                            mems[i + 1],
                            synced,
                            results[i],
                        ));
                    }
                }
                assert(flush_entries(done, more) =~= flush_entries(chains.take(n), results).push(
                    UsedElement { id: head.index, len },
                ));
                assert(self.queue.used@ =~= start.used@ + flush_entries(done, more));
                mems = longer;
                results = more;
            }
        }
    }

    /// Replaces the limits that an update speaks of.
    pub fn update_rate_limiter(&mut self, bytes: BucketUpdate, ops: BucketUpdate)
        ensures
            *final(self) == (Pmem {
                rate_limiter: RateLimiter {
                    bandwidth: updated_bucket(old(self).rate_limiter.bandwidth, bytes),
                    ops: updated_bucket(old(self).rate_limiter.ops, ops),
                    ..old(self).rate_limiter
                },
                ..*old(self)
            }),
    {
        self.rate_limiter.update_buckets(bytes, ops);
    }

    /// The bytes of the configuration space. The guest cannot change them.
    pub fn config_as_bytes(&self) -> (r: Vec<u8>)
        ensures
            r@ == bytes64(self.guest_region.config_space.start) + bytes64(
                self.guest_region.config_space.size,
            ),
    {
        let mut b: Vec<u8> = to_le64(self.guest_region.config_space.start);
        let mut size: Vec<u8> = to_le64(self.guest_region.config_space.size);
        b.append(&mut size);
        b
    }
}

/// Whether a chain asks for a flush: a readable word that is zero and a writable word behind it.
pub open spec fn asks_for_flush(chain: ChainView, mem: GuestMemory) -> bool {
    &&& chain.descs.len() >= 2
    &&& !chain.descs[0].write_only
    &&& chain.descs[0].len == 4
    &&& mem.has_range(chain.descs[0].addr as int, 4)
    &&& le32(mem.bytes(chain.descs[0].addr as int, 4)) == 0
    &&& chain.descs[1].write_only
    &&& chain.descs[1].len == 4
}

/// A request for a flush is answered in the second word of its chain: by zero if all data is on the
/// disk, and by ones if not. Nothing else changes, and anything that is no such request is refused
/// and changes nothing.
pub proof fn law_flushes_are_answered(
    chain: ChainView,
    before: GuestMemory,
    after: GuestMemory,
    synced: bool,
    r: Result<(), PmemError>,
    k: int,
)
    requires
        chain.descs.len() > 0,
        flush_step(chain, before, after, synced, r),
        0 <= k < 4,
    ensures
        !asks_for_flush(chain, before) ==> r is Err && after == before,
        asks_for_flush(chain, before) && before.has_range(chain.descs[1].addr as int, 4) ==> {
            &&& r is Ok
            &&& after.at(chain.descs[1].addr + k) == (if synced {
                0u8
            } else {
                0xff
            })
            &&& forall|a: int|
                before.has(a) && !(chain.descs[1].addr <= a < chain.descs[1].addr + 4)
                    ==> #[trigger] after.at(a) == before.at(a)
        },
        asks_for_flush(chain, before) && !before.has_range(chain.descs[1].addr as int, 4) ==> r is Err,
{
    if asks_for_flush(chain, before) && before.has_range(chain.descs[1].addr as int, 4) {
        let addr = chain.descs[1].addr as int;
        assert(before.has(addr) && before.has(addr + 1) && before.has(addr + 2) && before.has(
            addr + 3,
        ));
        reveal_with_fuel(GuestMemory::reach, 5);
        assert(before.reach(addr, 4) == 4);
        let status = bytes32(flush_status(synced));
        assert(status.take(4) =~= status);
        assert(before.has(addr + k));
        assert(after.at(addr + k) == status[k]);
    }
}

/// A file whose length is a multiple of two MiB is mapped as it is, shared with the host. Any other
/// file is mapped over private memory of the next multiple. The mapping can be written to unless the
/// device is read-only.
pub proof fn law_files_are_mapped_in_whole_blocks(file_len: u64, read_only: bool)
    requires
        0 < file_len <= i64::MAX,
    ensures
        ({
            let plan = planned(file_len, read_only);
            let prot: i32 = if read_only {
                1
            } else {
                3
            };
            &&& plan.file_len == file_len
            &&& plan.mmap_len as int % 0x20_0000 == 0
            &&& file_len <= plan.mmap_len < file_len + 0x20_0000
            &&& plan.base.prot == prot
            &&& plan.base.len == plan.mmap_len
            &&& file_len as int % 0x20_0000 == 0 ==> {
                &&& plan.over is None
                &&& plan.base.of_file
                &&& plan.base.flags == 0x4001
            }
            &&& file_len as int % 0x20_0000 != 0 ==> {
                &&& !plan.base.of_file
                &&& plan.base.flags == 0x4022
                &&& plan.over == Some(
                    MmapCall { len: file_len, prot, flags: 0x4011, of_file: true },
                )
            }
        }),
{
    law_aligned_up(file_len as int);
    assert(1i32 | 2i32 == 3 && 1i32 | 0x4000i32 == 0x4001 && 2i32 | 0x4000i32 | 0x20i32 == 0x4022
        && 1i32 | 0x4000i32 | 0x10i32 == 0x4011) by (bit_vector);
}

/// Every chain is given back once, in its order, and only a flush has four bytes written for it.
pub proof fn law_every_flush_is_given_back(
    chains: Seq<ChainView>,
    mems: Seq<GuestMemory>,
    results: Seq<Result<(), PmemError>>,
    synced: bool,
    i: int,
)
    requires
        flush_trace(chains, mems, results, synced),
        0 <= i < chains.len(),
        chains[i].descs.len() > 0,
    ensures
        ({
            let entries = flush_entries(chains, results);
            let can_answer = asks_for_flush(chains[i], mems[i]) && mems[i].has_range(
                chains[i].descs[1].addr as int,
                4,
            );
            &&& entries.len() == chains.len()
            &&& entries[i].id == chains[i].index
            &&& entries[i].len == (if can_answer {
                4u32
            } else {
                0
            })
        }),
{
    assert(flush_step(chains[i], mems[i], mems[i + 1], synced, results[i]));
    law_flushes_are_answered(chains[i], mems[i], mems[i + 1], synced, results[i], 0);
}

/// A device gets a place of its size in guest addresses that was free, at a multiple of two
/// mebibytes, and the lowest one there is. Without such a place it is told so.
pub proof fn law_devices_get_a_place(
    before: ResourceAllocator,
    after: ResourceAllocator,
    size: u64,
    r: Result<ConfigSpace, PmemError>,
    addr: int,
)
    requires
        region_answer(before, after, size, r),
    ensures
        r matches Ok(c) ==> {
            &&& c.size == size
            &&& size > 0 ==> c.start as int % 0x20_0000 == 0
            &&& size > 0 && can_stand(
                before.past_mmio64_memory,
                addr,
                size as int,
                0x20_0000,
            ) ==> c.start <= addr
            &&& allocated_ranges(after.past_mmio64_memory).contains(
                (c.start as int, c.start + c.size - 1),
            )
        },
        r is Err ==> r->Err_0 == PmemError::AllocationFailed,
        size > 0 && r is Ok ==> has_room(before.past_mmio64_memory, size as int, 0x20_0000),
        size > 0 && can_stand(before.past_mmio64_memory, addr, size as int, 0x20_0000)
            && can_hand_out(before.past_mmio64_memory) ==> r is Ok,
        size == 0 ==> r is Err,
        after.mmio32_memory == before.mmio32_memory,
        after.mmio64_memory == before.mmio64_memory,
        after.system_memory == before.system_memory,
{
    let a = before.past_mmio64_memory;
    if size > 0 {
        law_room_is_a_place(a, size as int, 0x20_0000);
        if let Ok(c) = r {
            let range = choose|range: (int, int)|
                {
                    &&& #[trigger] crate::vstate::resources::is_first_fit(
                        a,
                        range,
                        size as int,
                        ALIGNMENT as int,
                    )
                    &&& c.start == crate::vstate::resources::first_aligned(
                        range.0,
                        ALIGNMENT as int,
                    )
                };
            assert(free_ranges(a).contains(range) && crate::vstate::resources::fits(
                range,
                size as int,
                ALIGNMENT as int,
            ));
            assert(has_room(a, size as int, ALIGNMENT as int));
            let place = choose|place: int| #[trigger] can_stand(a, place, size as int, 0x20_0000);
            law_lowest_place_is_taken(
                a,
                after.past_mmio64_memory,
                c.start as int,
                size as int,
                0x20_0000,
                place,
            );
            if can_stand(a, addr, size as int, 0x20_0000) {
                law_lowest_place_is_taken(
                    a,
                    after.past_mmio64_memory,
                    c.start as int,
                    size as int,
                    0x20_0000,
                    addr,
                );
            }
        }
    }
}

} // verus!
