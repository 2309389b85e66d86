//! Virtual machines: memory slots, interrupt routes, what CPUs answer, and snapshots of memory.

use vstd::prelude::*;

use vm_memory::bitmap::AtomicBitmap;

use crate::vmm_config::snapshot::SnapshotType;
use crate::vstate::dump::{kvm_dirty, memory_slots, PlacedSlot};
use crate::vstate::memory::{
    dirty_page, GuestMemoryRegionState, GuestRegionMmapExt, GuestRegionType, MemoryError, SlotStep,
};
use crate::vstate::memory_map::{regions_wf, GuestMemoryMmap};
use crate::vstate::resources::{
    allocated_exactly, bits, count_free, lowest_free, AllocatorError, ResourceAllocator,
};
use crate::vstate::vcpu::{NotAllowed, EINTR};

verus! {

/// How often the creation of a virtual machine is tried.
pub const MAX_ATTEMPTS: u32 = 5;

/// The interrupt controller for devices.
pub const KVM_IRQCHIP_IOAPIC: u32 = 2;

/// Why a virtual machine cannot be set up.
#[derive(Debug, Clone, Copy, PartialEq, Eq, Structural)]
pub enum VmError {
    /// It cannot be created: error number.
    CreateVm(i32),
    /// There are not enough memory slots.
    NotEnoughMemorySlots(u32),
    /// Regions of memory overlap.
    InsertRegion,
    /// Memory cannot be set up.
    Memory(MemoryError),
}

/// What follows an attempt to create a virtual machine.
#[derive(Debug, Clone, Copy, PartialEq, Eq, Structural)]
pub enum CreateStep {
    /// It is there.
    Created,
    /// Wait for a number of microseconds and try again.
    Retry(u64),
    /// Give up.
    Fail(VmError),
}

/// Two to the power of a small number.
pub open spec fn power_of_two(n: int) -> int
    decreases n,
{
    if n <= 0 {
        1
    } else {
        2 * power_of_two(n - 1)
    }
}

/// Decides what follows the attempt with a given number, which starts with one. Interruptions are
/// retried a few times, after a wait that doubles each time.
pub fn create_vm_step(attempt: u32, error: Option<i32>) -> (r: CreateStep)
    requires
        1 <= attempt,
    ensures
        r == (match error {
            None => CreateStep::Created,
            Some(errno) => if errno == EINTR && attempt < MAX_ATTEMPTS {
                CreateStep::Retry(power_of_two(attempt - 1) as u64)
            } else {
                CreateStep::Fail(VmError::CreateVm(errno))
            },
        }),
{
    match error {
        None => CreateStep::Created,
        Some(errno) => {
            if errno == EINTR && attempt < MAX_ATTEMPTS {
                let mut wait: u64 = 1;
                let mut i: u32 = 1;
                while i < attempt
                    invariant
                        1 <= i <= attempt < MAX_ATTEMPTS,
                        wait == power_of_two(i - 1),
                        wait <= 16,
                        i <= 1 ==> wait == 1,
                        i <= 2 ==> wait <= 2,
                        i <= 3 ==> wait <= 4,
                        i <= 4 ==> wait <= 8,
                    decreases attempt - i,
                {
                    wait = wait * 2;
                    i += 1;
                }
                CreateStep::Retry(wait)
            } else {
                CreateStep::Fail(VmError::CreateVm(errno))
            }
        },
    }
}

/// A route from an interrupt line.
#[derive(Debug, Clone, Copy, PartialEq, Eq, Structural)]
pub enum Route {
    /// To a pin of an interrupt controller.
    Irqchip {
        /// The controller.
        irqchip: u32,
        /// The pin.
        pin: u32,
    },
    /// To a message.
    Msi {
        /// Lower half of the address.
        address_lo: u32,
        /// Upper half of the address.
        address_hi: u32,
        /// The message.
        data: u32,
        /// The device, where the hypervisor wants to know it.
        devid: Option<u32>,
    },
}

/// An entry of the routing table.
#[derive(Debug, Clone, Copy, PartialEq, Eq, Structural)]
pub struct RoutingEntry {
    /// The interrupt line.
    pub gsi: u32,
    /// The route.
    pub route: Route,
    /// Whether the route is left out.
    pub masked: bool,
}

/// A message for an interrupt.
#[derive(Debug, Clone, Copy, PartialEq, Eq, Structural)]
pub struct MsixVectorConfig {
    /// Upper half of the address.
    pub high_addr: u32,
    /// Lower half of the address.
    pub low_addr: u32,
    /// The message.
    pub data: u32,
    /// The device.
    pub devid: u32,
}

/// An interrupt by message.
#[derive(Debug, Clone, Copy, PartialEq, Eq, Structural)]
pub struct MsixVector {
    /// The interrupt line.
    pub gsi: u32,
    /// Whether it is in use.
    pub enabled: bool,
}

/// A virtual machine.
#[derive(Debug)]
pub struct VmCommon {
    /// The number of memory slots that the hypervisor offers.
    pub max_memslots: u32,
    /// The next free memory slot.
    pub next_kvm_slot: u32,
    /// The memory of the guest.
    pub guest_memory: GuestMemoryMmap,
    /// The routing table.
    pub interrupts: Vec<RoutingEntry>,
    /// The allocator of interrupt lines and addresses.
    pub resource_allocator: ResourceAllocator,
}

/// What is done about a slot when its region is registered.
pub open spec fn register_step(region: GuestRegionMmapExt, i: int, userspace_addr: u64) -> SlotStep {
    let slot = region.slot_at(i);
    if bits(region.plugged)[i] {
        SlotStep::SetUserMemoryRegion(
            slot.as_kvm_region((userspace_addr + slot.offset) as u64),
        )
    } else {
        SlotStep::Protect
    }
}

/// Whether two regions have an address in common.
pub open spec fn regions_overlap(a: GuestRegionMmapExt, b: GuestRegionMmapExt) -> bool {
    a.start_addr < b.start_addr + b.size && b.start_addr < a.start_addr + a.size
}

/// Whether a region has an address in common with others.
pub open spec fn overlaps_some(regions: Seq<GuestRegionMmapExt>, region: GuestRegionMmapExt) -> bool {
    exists|i: int| 0 <= i < regions.len() && regions_overlap(#[trigger] regions[i], region)
}

/// The number of regions that start before an address.
pub open spec fn starting_before(regions: Seq<GuestRegionMmapExt>, addr: int) -> int
    decreases regions.len(),
{
    if regions.len() == 0 || regions[0].start_addr >= addr {
        0
    } else {
        1 + starting_before(regions.skip(1), addr)
    }
}

/// A region that overlaps no other keeps the regions in order where it is put behind those that
/// start before it.
proof fn lemma_inserted(regions: Seq<GuestRegionMmapExt>, region: GuestRegionMmapExt, i: int)
    requires
        regions_wf(regions),
        forall|j: int| 0 <= j < regions.len() ==> (#[trigger] regions[j]).size > 0,
        region.wf(),
        region.size > 0,
        !overlaps_some(regions, region),
        0 <= i <= regions.len(),
        forall|j: int| 0 <= j < i ==> (#[trigger] regions[j]).start_addr < region.start_addr,
        i < regions.len() ==> regions[i].start_addr >= region.start_addr,
    ensures
        regions_wf(regions.insert(i, region)),
        forall|j: int|
            0 <= j < regions.insert(i, region).len() ==> (#[trigger] regions.insert(
                i,
                region,
            )[j]).size > 0,
{
    let after = regions.insert(i, region);
    assert forall|a: int| 0 <= a < after.len() implies (#[trigger] after[a]).wf() && after[a].size
        > 0 by {
        if a < i {
            assert(after[a] == regions[a]);
        } else if a > i {
            assert(after[a] == regions[a - 1]);
        }
    }
    assert forall|b: int| i <= b < regions.len() implies region.start_addr + region.size <= (
    #[trigger] regions[b]).start_addr by {
        assert(!regions_overlap(regions[b], region));
        if b > i {
            assert(regions[i].start_addr + regions[i].size <= regions[b].start_addr);
        }
    }
    assert forall|a: int, b: int| 0 <= a < b < after.len() implies (#[trigger] after[a]).start_addr
        + after[a].size <= (#[trigger] after[b]).start_addr by {
        if a < i {
            assert(after[a] == regions[a]);
            assert(!regions_overlap(regions[a], region));
            if b < i {
                assert(after[b] == regions[b]);
            } else if b > i {
                assert(after[b] == regions[b - 1]);
            }
        } else {
            assert(after[b] == regions[b - 1]);
            if a > i {
                assert(after[a] == regions[a - 1]);
            }
        }
    }
}

/// The routing table after an entry was put into it.
pub open spec fn routed(table: Seq<RoutingEntry>, entry: RoutingEntry) -> Seq<RoutingEntry>
    decreases table.len(),
{
    if table.len() == 0 {
        seq![entry]
    } else if table[0].gsi == entry.gsi {
        seq![entry] + table.skip(1)
    } else {
        seq![table[0]] + routed(table.skip(1), entry)
    }
}

/// Whether no two entries are for the same line.
pub open spec fn one_route_each(table: Seq<RoutingEntry>) -> bool {
    forall|i: int, j: int|
        0 <= i < j < table.len() ==> (#[trigger] table[i]).gsi != (#[trigger] table[j]).gsi
}

/// Where an interrupt line leads.
pub open spec fn route_of(table: Seq<RoutingEntry>, gsi: u32) -> Option<RoutingEntry>
    decreases table.len(),
{
    if table.len() == 0 {
        None
    } else if table[0].gsi == gsi {
        Some(table[0])
    } else {
        route_of(table.skip(1), gsi)
    }
}

/// An entry is found under its line, and the routes of other lines stay.
pub proof fn law_route_is_found(table: Seq<RoutingEntry>, entry: RoutingEntry, gsi: u32)
    ensures
        route_of(routed(table, entry), gsi) == (if gsi == entry.gsi {
            Some(entry)
        } else {
            route_of(table, gsi)
        }),
    decreases table.len(),
{
    if table.len() == 0 {
        assert(routed(table, entry).skip(1) =~= table);
    } else if table[0].gsi == entry.gsi {
        assert(routed(table, entry).skip(1) =~= table.skip(1));
    } else {
        law_route_is_found(table.skip(1), entry, gsi);
        assert(routed(table, entry).skip(1) =~= routed(table.skip(1), entry));
    }
}

/// What an entry adds to a table is for its line or was there.
proof fn lemma_routed_gsi(table: Seq<RoutingEntry>, entry: RoutingEntry, k: int)
    requires
        0 <= k < routed(table, entry).len(),
    ensures
        routed(table, entry)[k].gsi == entry.gsi || exists|i: int|
            0 <= i < table.len() && (#[trigger] table[i]).gsi == routed(table, entry)[k].gsi,
    decreases table.len(),
{
    if table.len() == 0 {
    } else if table[0].gsi == entry.gsi {
        if k > 0 {
            assert(table.skip(1)[k - 1] == table[k]);
        }
    } else if k == 0 {
        assert(table[0].gsi == routed(table, entry)[0].gsi);
    } else {
        lemma_routed_gsi(table.skip(1), entry, k - 1);
        if routed(table, entry)[k].gsi != entry.gsi {
            let i = choose|i: int|
                0 <= i < table.skip(1).len() && (#[trigger] table.skip(1)[i]).gsi == routed(
                    table.skip(1),
                    entry,
                )[k - 1].gsi;
            assert(table[i + 1].gsi == routed(table, entry)[k].gsi);
        }
    }
}

/// A table with one route for each line keeps that.
pub proof fn law_one_route_each(table: Seq<RoutingEntry>, entry: RoutingEntry)
    requires
        one_route_each(table),
    ensures
        one_route_each(routed(table, entry)),
    decreases table.len(),
{
    if table.len() == 0 {
    } else if table[0].gsi == entry.gsi {
        let after = routed(table, entry);
        assert forall|i: int, j: int| 0 <= i < j < after.len() implies (#[trigger] after[i]).gsi != (
        #[trigger] after[j]).gsi by {
            assert(after[i].gsi == table[i].gsi);
            assert(after[j] == table[j]);
        }
    } else {
        let rest = table.skip(1);
        assert forall|i: int, j: int| 0 <= i < j < rest.len() implies (#[trigger] rest[i]).gsi != (
        #[trigger] rest[j]).gsi by {
            assert(table[i + 1].gsi != table[j + 1].gsi);
        }
        law_one_route_each(rest, entry);
        let more = routed(rest, entry);
        let after = routed(table, entry);
        assert forall|i: int, j: int| 0 <= i < j < after.len() implies (#[trigger] after[i]).gsi != (
        #[trigger] after[j]).gsi by {
            assert(after[j] == more[j - 1]);
            if i == 0 {
                lemma_routed_gsi(rest, entry, j - 1);
                if more[j - 1].gsi != entry.gsi {
                    let k = choose|k: int|
                        0 <= k < rest.len() && (#[trigger] rest[k]).gsi == more[j - 1].gsi;
                    assert(table[0].gsi != table[k + 1].gsi);
                }
            } else {
                assert(after[i] == more[i - 1]);
            }
        }
    }
}

/// The unmasked entries of a routing table.
pub open spec fn active_routes(table: Seq<RoutingEntry>) -> Seq<RoutingEntry> {
    table.filter(|e: RoutingEntry| !e.masked)
}

/// What is asked of the hypervisor for the dirty pages of a slot.
#[derive(Debug, Clone, Copy, PartialEq, Eq, Structural)]
pub enum DirtyQuery {
    /// The log of the hypervisor.
    DirtyLog {
        /// Number of the slot.
        slot: u32,
        /// Number of bytes.
        len: usize,
    },
    /// The pages that are in memory.
    Mincore {
        /// Number of the slot.
        slot: u32,
        /// The region that the slot is in.
        region: usize,
        /// Offset in the region.
        offset: usize,
        /// Number of bytes.
        len: usize,
    },
}

/// What is done to write a snapshot of memory to a file.
#[derive(Debug, Clone, Copy, PartialEq, Eq, Structural)]
pub enum SnapshotStep {
    /// The contents of the file are dropped.
    Truncate,
    /// The file gets its size.
    SetLen(u64),
    /// The dirty pages are asked for and written.
    DumpDirty,
    /// All pages are written.
    Dump,
    /// The log of the hypervisor starts anew.
    ResetKvmBitmap,
    /// The own record of writes starts anew.
    ResetDirty,
    /// Everything reaches the file.
    Flush,
    /// Everything reaches the disk.
    SyncAll,
}

/// The size of the file for a snapshot: whole mebibytes.
pub open spec fn snapshot_size(regions: Seq<GuestRegionMmapExt>) -> int {
    (memory_size(regions) / 0x10_0000) * 0x10_0000
}

/// The number of bytes of regions.
pub open spec fn memory_size(regions: Seq<GuestRegionMmapExt>) -> int
    decreases regions.len(),
{
    if regions.len() == 0 {
        0
    } else {
        memory_size(regions.drop_last()) + regions.last().size
    }
}

/// What is done to write a snapshot of memory to a file. A file of the right size is kept, so that
/// the pages that changed are merged into it.
pub open spec fn snapshot_steps(
    regions: Seq<GuestRegionMmapExt>,
    file_size: Option<u64>,
    snapshot_type: SnapshotType,
) -> Seq<SnapshotStep> {
    let expected = snapshot_size(regions) as u64;
    let truncate = if file_size is Some && file_size->Some_0 != expected {
        seq![SnapshotStep::Truncate]
    } else {
        seq![]
    };
    let dump = match snapshot_type {
        SnapshotType::Diff => seq![SnapshotStep::DumpDirty],
        SnapshotType::Full => seq![
            SnapshotStep::Dump,
            SnapshotStep::ResetKvmBitmap,
            SnapshotStep::ResetDirty,
        ],
    };
    truncate + seq![SnapshotStep::SetLen(expected)] + dump + seq![
        SnapshotStep::Flush,
        SnapshotStep::SyncAll,
    ]
}

/// A snapshot of the pages that changed keeps the other pages of a file that has the right size.
pub proof fn law_diff_is_merged(regions: Seq<GuestRegionMmapExt>, file_size: u64, at: int)
    requires
        file_size == snapshot_size(regions),
        0 <= at < snapshot_steps(regions, Some(file_size), SnapshotType::Diff).len(),
    ensures
        !(snapshot_steps(regions, Some(file_size), SnapshotType::Diff)[at] is Truncate),
        snapshot_steps(regions, Some(file_size), SnapshotType::Diff)[0] == SnapshotStep::SetLen(
            file_size,
        ),
{
}

/// What a virtual CPU answered.
#[derive(Debug)]
pub enum VcpuResponse<S, C> {
    /// It failed.
    Error,
    /// It has ended.
    Exited,
    /// It refuses.
    NotAllowed(NotAllowed),
    /// It is paused.
    Paused,
    /// It runs.
    Resumed,
    /// Its state.
    SavedState(S),
    /// Its configuration.
    DumpedCpuConfig(C),
}

/// Why a virtual machine cannot do something.
#[derive(Debug, Clone, Copy, PartialEq, Eq, Structural)]
pub enum VmmError {
    /// A virtual CPU could not be asked, or did not answer as it should.
    VcpuMessage,
}

/// Why virtual CPUs cannot give something out.
#[derive(Debug, Clone, Copy, PartialEq, Eq, Structural)]
pub enum VcpuRequestError {
    /// A request could not be sent.
    Signal,
    /// A CPU answered something else, or nothing.
    UnexpectedResponse,
    /// A CPU failed.
    Failed,
    /// A CPU refused.
    NotAllowed(NotAllowed),
}

/// What is wrong with an answer that should hold a state.
pub open spec fn state_fault<S, C>(response: VcpuResponse<S, C>) -> Option<VcpuRequestError> {
    match response {
        VcpuResponse::SavedState(_) => None,
        VcpuResponse::Error => Some(VcpuRequestError::Failed),
        VcpuResponse::NotAllowed(reason) => Some(VcpuRequestError::NotAllowed(reason)),
        _ => Some(VcpuRequestError::UnexpectedResponse),
    }
}

/// What is wrong with an answer that should hold a configuration.
pub open spec fn config_fault<S, C>(response: VcpuResponse<S, C>) -> Option<VcpuRequestError> {
    match response {
        VcpuResponse::DumpedCpuConfig(_) => None,
        VcpuResponse::Error => Some(VcpuRequestError::Failed),
        VcpuResponse::NotAllowed(reason) => Some(VcpuRequestError::NotAllowed(reason)),
        _ => Some(VcpuRequestError::UnexpectedResponse),
    }
}

/// Whether all requests were sent and all CPUs answered that they are paused.
pub fn pause_vcpus<S, C>(all_sent: bool, responses: &Vec<Option<VcpuResponse<S, C>>>) -> (r: Result<
    (),
    VmmError,
>)
    ensures
        r == (if all_sent && forall|i: int|
            0 <= i < responses@.len() ==> (#[trigger] responses@[i]) matches Some(
                VcpuResponse::Paused,
            ) {
            Ok(())
        } else {
            Err(VmmError::VcpuMessage)
        }),
{
    if !all_sent {
        return Err(VmmError::VcpuMessage);
    }
    let mut i: usize = 0;
    while i < responses.len()
        invariant
            all_sent,
            i <= responses@.len(),
            forall|j: int|
                0 <= j < i ==> (#[trigger] responses@[j]) matches Some(VcpuResponse::Paused),
        decreases responses@.len() - i,
    {
        match &responses[i] {
            Some(VcpuResponse::Paused) => {},
            _ => {
                assert(!(responses@[i as int] matches Some(VcpuResponse::Paused)));
                return Err(VmmError::VcpuMessage);
            },
        }
        i += 1;
    }
    Ok(())
}

/// Whether all requests were sent and all CPUs answered that they run.
pub fn resume_vcpus<S, C>(all_sent: bool, responses: &Vec<Option<VcpuResponse<S, C>>>) -> (r: Result<
    (),
    VmmError,
>)
    ensures
        r == (if all_sent && forall|i: int|
            0 <= i < responses@.len() ==> (#[trigger] responses@[i]) matches Some(
                VcpuResponse::Resumed,
            ) {
            Ok(())
        } else {
            Err(VmmError::VcpuMessage)
        }),
{
    if !all_sent {
        return Err(VmmError::VcpuMessage);
    }
    let mut i: usize = 0;
    while i < responses.len()
        invariant
            all_sent,
            i <= responses@.len(),
            forall|j: int|
                0 <= j < i ==> (#[trigger] responses@[j]) matches Some(VcpuResponse::Resumed),
        decreases responses@.len() - i,
    {
        match &responses[i] {
            Some(VcpuResponse::Resumed) => {},
            _ => {
                assert(!(responses@[i as int] matches Some(VcpuResponse::Resumed)));
                return Err(VmmError::VcpuMessage);
            },
        }
        i += 1;
    }
    Ok(())
}

/// Whether some CPU did not answer.
pub open spec fn some_silent<S, C>(responses: Seq<Option<VcpuResponse<S, C>>>) -> bool {
    exists|i: int| 0 <= i < responses.len() && (#[trigger] responses[i]) is None
}

/// Whether some CPU did not answer.
fn any_silent<S, C>(responses: &Vec<Option<VcpuResponse<S, C>>>) -> (r: bool)
    ensures
        r == some_silent(responses@),
{
    let mut i: usize = 0;
    while i < responses.len()
        invariant
            i <= responses@.len(),
            forall|j: int| 0 <= j < i ==> (#[trigger] responses@[j]) is Some,
        decreases responses@.len() - i,
    {
        if responses[i].is_none() {
            return true;
        }
        i += 1;
    }
    false
}

/// The states that CPUs answered with. All must have answered, and the first answer that holds no
/// state says what went wrong.
pub fn save_vcpu_states<S, C>(all_sent: bool, responses: Vec<Option<VcpuResponse<S, C>>>) -> (r:
    Result<Vec<S>, VcpuRequestError>)
    ensures
        match r {
            Ok(states) => {
                &&& all_sent
                &&& states@.len() == responses@.len()
                &&& forall|i: int|
                    0 <= i < states@.len() ==> responses@[i] == Some(
                        VcpuResponse::<S, C>::SavedState(#[trigger] states@[i]),
                    )
            },
            Err(e) => if !all_sent {
                e == VcpuRequestError::Signal
            } else if some_silent(responses@) {
                e == VcpuRequestError::UnexpectedResponse
            } else {
                exists|i: int|
                    {
                        &&& 0 <= i < responses@.len()
                        &&& state_fault((#[trigger] responses@[i])->Some_0) == Some(e)
                        &&& forall|j: int|
                            0 <= j < i ==> state_fault((#[trigger] responses@[j])->Some_0) is None
                    }
            },
        },
{
    if !all_sent {
        return Err(VcpuRequestError::Signal);
    }
    if any_silent(&responses) {
        return Err(VcpuRequestError::UnexpectedResponse);
    }
    let ghost given = responses@;
    let mut pending = responses;
    let mut states: Vec<S> = Vec::new();
    while pending.len() > 0
        invariant
            all_sent,
            !some_silent(given),
            given == responses@,
            states@.len() + pending@.len() == given.len(),
            pending@ == given.skip(states@.len() as int),
            forall|i: int|
                0 <= i < states@.len() ==> given[i] == Some(
                    VcpuResponse::<S, C>::SavedState(#[trigger] states@[i]),
                ),
        decreases pending@.len(),
    {
        let ghost at = states@.len() as int;
        assert(given[at] == pending@[0]);
        assert(given[at] is Some);
        let fault = match pending.remove(0) {
            Some(VcpuResponse::SavedState(state)) => {
                states.push(state);
                None
            },
            Some(VcpuResponse::Error) => Some(VcpuRequestError::Failed),
            Some(VcpuResponse::NotAllowed(reason)) => Some(VcpuRequestError::NotAllowed(reason)),
            _ => Some(VcpuRequestError::UnexpectedResponse),
        };
        match fault {
            None => {},
            Some(e) => {
                proof {
                    assert(state_fault(given[at]->Some_0) == Some(e));
                    assert forall|j: int| 0 <= j < at implies state_fault(
                        (#[trigger] given[j])->Some_0,
                    ) is None by {
                        assert(given[j] == Some(VcpuResponse::<S, C>::SavedState(states@[j])));
                    }
                }
                return Err(e);
            },
        }
        assert(pending@ =~= given.skip(at + 1));
    }
    Ok(states)
}

/// The configurations that CPUs answered with. All must have answered, and the first answer that
/// holds no configuration says what went wrong.
pub fn dump_cpu_config_states<S, C>(
    all_sent: bool,
    responses: Vec<Option<VcpuResponse<S, C>>>,
) -> (r: Result<Vec<C>, VcpuRequestError>)
    ensures
        match r {
            Ok(configs) => {
                &&& all_sent
                &&& configs@.len() == responses@.len()
                &&& forall|i: int|
                    0 <= i < configs@.len() ==> responses@[i] == Some(
                        VcpuResponse::<S, C>::DumpedCpuConfig(#[trigger] configs@[i]),
                    )
            },
            Err(e) => if !all_sent {
                e == VcpuRequestError::Signal
            } else if some_silent(responses@) {
                e == VcpuRequestError::UnexpectedResponse
            } else {
                exists|i: int|
                    {
                        &&& 0 <= i < responses@.len()
                        &&& config_fault((#[trigger] responses@[i])->Some_0) == Some(e)
                        &&& forall|j: int|
                            0 <= j < i ==> config_fault((#[trigger] responses@[j])->Some_0) is None
                    }
            },
        },
{
    if !all_sent {
        return Err(VcpuRequestError::Signal);
    }
    if any_silent(&responses) {
        return Err(VcpuRequestError::UnexpectedResponse);
    }
    let ghost given = responses@;
    let mut pending = responses;
    let mut configs: Vec<C> = Vec::new();
    while pending.len() > 0
        invariant
            all_sent,
            !some_silent(given),
            given == responses@,
            configs@.len() + pending@.len() == given.len(),
            pending@ == given.skip(configs@.len() as int),
            forall|i: int|
                0 <= i < configs@.len() ==> given[i] == Some(
                    VcpuResponse::<S, C>::DumpedCpuConfig(#[trigger] configs@[i]),
                ),
        decreases pending@.len(),
    {
        let ghost at = configs@.len() as int;
        assert(given[at] == pending@[0]);
        assert(given[at] is Some);
        let fault = match pending.remove(0) {
            Some(VcpuResponse::DumpedCpuConfig(config)) => {
                configs.push(config);
                None
            },
            Some(VcpuResponse::Error) => Some(VcpuRequestError::Failed),
            Some(VcpuResponse::NotAllowed(reason)) => Some(VcpuRequestError::NotAllowed(reason)),
            _ => Some(VcpuRequestError::UnexpectedResponse),
        };
        match fault {
            None => {},
            Some(e) => {
                proof {
                    assert(config_fault(given[at]->Some_0) == Some(e));
                    assert forall|j: int| 0 <= j < at implies config_fault(
                        (#[trigger] given[j])->Some_0,
                    ) is None by {
                        assert(given[j] == Some(
                            VcpuResponse::<S, C>::DumpedCpuConfig(configs@[j]),
                        ));
                    }
                }
                return Err(e);
            },
        }
        assert(pending@ =~= given.skip(at + 1));
    }
    Ok(configs)
}

/// The dirty bitmap for pages of which the system says whether they are in memory.
pub fn mincore_bitmap(pages: &Vec<u8>) -> (r: Vec<u64>)
    requires
        pages@.len() + 64 <= usize::MAX,
    ensures
        r@.len() == (pages@.len() + 63) / 64,
        forall|p: int|
            0 <= p < r@.len() * 64 ==> (#[trigger] kvm_dirty(r@, p)) == (p < pages@.len()
                && pages@[p] & 1 != 0),
{
    let words: usize = (pages.len() + 63) / 64;
    let mut bitmap: Vec<u64> = Vec::new();
    while bitmap.len() < words
        invariant
            bitmap@.len() <= words,
            forall|i: int| 0 <= i < bitmap@.len() ==> #[trigger] bitmap@[i] == 0,
        decreases words - bitmap@.len(),
    {
        bitmap.push(0);
    }
    proof {
        assert forall|p: int| 0 <= p < bitmap@.len() * 64 implies !#[trigger] kvm_dirty(
            bitmap@,
            p,
        ) by {
            let s = (p % 64) as u64;
            assert((0u64 >> s) & 1 == 0) by (bit_vector);
            assert(bitmap@[p / 64] == 0);
        }
    }
    let mut i: usize = 0;
    while i < pages.len()
        invariant
            i <= pages@.len(),
            bitmap@.len() == words,
            words == (pages@.len() + 63) / 64,
            forall|p: int|
                0 <= p < bitmap@.len() * 64 ==> (#[trigger] kvm_dirty(bitmap@, p)) == (p < i
                    && pages@[p] & 1 != 0),
        decreases pages@.len() - i,
    {
        let at: usize = i / 64;
        let shift: u64 = (i % 64) as u64;
        let bit: u64 = (pages[i] as u64) & 1;
        let ghost before = bitmap@;
        let word: u64 = bitmap[at];
        let changed: u64 = word | (bit << shift);
        bitmap.set(at, changed);
        proof {
            let b = pages@[i as int];
            assert((b as u64) & 1 == (b & 1) as u64 && (b as u64) & 1 <= 1) by (bit_vector);
            assert forall|p: int| 0 <= p < bitmap@.len() * 64 implies (#[trigger] kvm_dirty(
                bitmap@,
                p,
            )) == (p < i + 1 && pages@[p] & 1 != 0) by {
                assert(kvm_dirty(before, p) == (p < i && pages@[p] & 1 != 0));
                if p / 64 == at {
                    let s = (p % 64) as u64;
                    lemma_set_bit(word, bit, shift, s);
                }
            }
        }
        i += 1;
    }
    bitmap
}

/// Setting a bit changes no other.
proof fn lemma_set_bit(word: u64, bit: u64, shift: u64, s: u64)
    requires
        bit <= 1,
        shift < 64,
        s < 64,
    ensures
        ((word | (bit << shift)) >> s) & 1 == (if s == shift {
            ((word >> s) & 1) | bit
        } else {
            (word >> s) & 1
        }),
        ((word >> s) & 1) | bit != 0 <==> ((word >> s) & 1 != 0 || bit != 0),
{
    assert(((word | (bit << shift)) >> s) & 1 == (if s == shift {
        ((word >> s) & 1) | bit
    } else {
        (word >> s) & 1
    })) by (bit_vector)
        requires
            bit <= 1,
            shift < 64,
            s < 64,
    ;
    assert(((word >> s) & 1) | bit != 0 <==> ((word >> s) & 1 != 0 || bit != 0)) by (bit_vector);
}

/// Whether slots were reserved: the first number is handed out when it is within the limit, and the
/// next number moves on in any case, round past the largest.
pub open spec fn slots_reserved(
    before: VmCommon,
    after: VmCommon,
    slot_cnt: u32,
    first: Option<u32>,
) -> bool {
    &&& after == (VmCommon { next_kvm_slot: after.next_kvm_slot, ..before })
    &&& after.next_kvm_slot == (if before.next_kvm_slot + slot_cnt <= u32::MAX {
        before.next_kvm_slot + slot_cnt
    } else {
        before.next_kvm_slot + slot_cnt - 0x1_0000_0000
    })
    &&& first == (if before.max_memslots <= before.next_kvm_slot {
        None
    } else {
        Some(before.next_kvm_slot)
    })
}

impl VmCommon {
    /// The memory, the routing table and the allocator are well formed.
    pub open spec fn wf(self) -> bool {
        &&& self.guest_memory.wf()
        &&& forall|i: int|
            0 <= i < self.guest_memory.regions@.len() ==> (
            #[trigger] self.guest_memory.regions@[i]).size > 0
        &&& one_route_each(self.interrupts@)
        &&& self.resource_allocator.wf()
    }

    /// A virtual machine without memory and routes.
    pub fn create_common(max_memslots: u32) -> (r: VmCommon)
        ensures
            r.wf(),
            r.max_memslots == max_memslots,
            r.next_kvm_slot == 0,
            r.guest_memory.regions@.len() == 0,
            r.interrupts@.len() == 0,
            r.resource_allocator.is_new(),
    {
        VmCommon {
            max_memslots,
            next_kvm_slot: 0,
            guest_memory: GuestMemoryMmap { regions: Vec::new() },
            interrupts: Vec::new(),
            resource_allocator: ResourceAllocator::new(),
        }
    }

    /// Reserves memory slots with consecutive numbers and gives back the first one, if the
    /// hypervisor has it.
    pub fn next_kvm_slot(&mut self, slot_cnt: u32) -> (r: Option<u32>)
        ensures
            slots_reserved(*old(self), *final(self), slot_cnt, r),
    {
        let next: u32 = self.next_kvm_slot;
        self.next_kvm_slot = next.wrapping_add(slot_cnt);
        if self.max_memslots <= next {
            None
        } else {
            Some(next)
        }
    }

    /// Checks that a region has no address in common with others, and says what is to be done about
    /// its slots. The region starts at a host address.
    pub fn register_memory_region(&self, region: &GuestRegionMmapExt, userspace_addr: u64) -> (r:
        Result<Vec<SlotStep>, VmError>)
        requires
            self.wf(),
            region.wf(),
            region.size > 0,
            userspace_addr + region.size <= u64::MAX,
        ensures
            overlaps_some(self.guest_memory.regions@, *region) ==> r is Err && r->Err_0
                == VmError::InsertRegion,
            !overlaps_some(self.guest_memory.regions@, *region) ==> r is Ok && r->Ok_0@ == Seq::new(
                bits(region.plugged).len(),
                |i: int| register_step(*region, i, userspace_addr),
            ),
    {
        let mut k: usize = 0;
        while k < self.guest_memory.regions.len()
            invariant
                self.wf(),
                region.wf(),
                k <= self.guest_memory.regions@.len(),
                forall|j: int|
                    0 <= j < k ==> !regions_overlap(
                        #[trigger] self.guest_memory.regions@[j],
                        *region,
                    ),
            decreases self.guest_memory.regions@.len() - k,
        {
            let other = &self.guest_memory.regions[k];
            assert(self.guest_memory.regions@[k as int].wf());
            if other.start_addr < region.start_addr + region.size as u64 && region.start_addr
                < other.start_addr + other.size as u64 {
                assert(regions_overlap(self.guest_memory.regions@[k as int], *region));
                return Err(VmError::InsertRegion);
            }
            k += 1;
        }
        let slots = region.slots();
        let mut steps: Vec<SlotStep> = Vec::new();
        let mut i: usize = 0;
        while i < slots.len()
            invariant
                region.wf(),
                userspace_addr + region.size <= u64::MAX,
                slots@ == region.all_slots(),
                i <= slots@.len(),
                steps@.len() == i,
                forall|j: int|
                    0 <= j < i ==> #[trigger] steps@[j] == register_step(
                        *region,
                        j,
                        userspace_addr,
                    ),
            decreases slots@.len() - i,
        {
            let (slot, plugged) = slots[i];
            assert(slots@[i as int] == (region.slot_at(i as int), bits(region.plugged)[i as int]));
            proof {
                let (at, s, size) = (i as int, region.slot_size as int, region.size as int);
                assert(at * s >= 0 && at * s + s <= size) by (nonlinear_arith)
                    requires
                        0 <= at < size / s,
                        s > 0,
                ;
            }
            if plugged {
                steps.push(
                    SlotStep::SetUserMemoryRegion(
                        slot.kvm_region(userspace_addr + slot.offset as u64),
                    ),
                );
            } else {
                steps.push(SlotStep::Protect);
            }
            i += 1;
        }
        Ok(steps)
    }

    /// Puts a registered region among the others.
    pub fn insert_region(&mut self, region: GuestRegionMmapExt)
        requires
            old(self).wf(),
            region.wf(),
            region.size > 0,
            !overlaps_some(old(self).guest_memory.regions@, region),
        ensures
            final(self).wf(),
            *final(self) == (VmCommon { guest_memory: final(self).guest_memory, ..*old(self) }),
            final(self).guest_memory.regions@ == old(self).guest_memory.regions@.insert(
                starting_before(old(self).guest_memory.regions@, region.start_addr as int),
                region,
            ),
            0 <= starting_before(old(self).guest_memory.regions@, region.start_addr as int) <= old(
                self,
            ).guest_memory.regions@.len(),
    {
        let ghost regions = self.guest_memory.regions@;
        let mut i: usize = 0;
        assert(regions.skip(0) =~= regions);
        while i < self.guest_memory.regions.len() && self.guest_memory.regions[i].start_addr
            < region.start_addr
            invariant
                *self == *old(self),
                regions == self.guest_memory.regions@,
                i <= regions.len(),
                starting_before(regions, region.start_addr as int) == i + starting_before(
                    regions.skip(i as int),
                    region.start_addr as int,
                ),
                forall|j: int|
                    0 <= j < i ==> (#[trigger] regions[j]).start_addr < region.start_addr,
            decreases regions.len() - i,
        {
            assert(regions.skip(i as int).skip(1) =~= regions.skip(i + 1));
            i += 1;
        }
        proof {
            if i < regions.len() {
                assert(regions.skip(i as int)[0] == regions[i as int]);
            }
            assert(starting_before(regions, region.start_addr as int) == i);
        }
        self.guest_memory.regions.insert(i, region);
        proof {
            lemma_inserted(regions, region, i as int);
        }
    }

    /// Takes a slot for a region of memory that is there from the start.
    pub fn register_dram_memory_region(
        &mut self,
        start_addr: u64,
        size: usize,
        dirty: Option<AtomicBitmap>,
    ) -> (r: Result<GuestRegionMmapExt, VmError>)
        requires
            size > 0,
            start_addr + size <= u64::MAX,
            dirty matches Some(b) ==> dirty_page(b) > 0,
        ensures
            *final(self) == (VmCommon { next_kvm_slot: final(self).next_kvm_slot, ..*old(self) }),
            old(self).max_memslots <= old(self).next_kvm_slot ==> r is Err && r->Err_0
                == VmError::NotEnoughMemorySlots(old(self).max_memslots),
            old(self).max_memslots > old(self).next_kvm_slot ==> {
                &&& r matches Ok(region)
                &&& final(self).next_kvm_slot == old(self).next_kvm_slot + 1
                &&& region.wf()
                &&& region.start_addr == start_addr
                &&& region.size == size
                &&& region.region_type == GuestRegionType::Dram
                &&& region.slot_from == old(self).next_kvm_slot
                &&& region.slot_size == size
                &&& bits(region.plugged) == seq![true]
                &&& region.dirty == dirty
            },
    {
        match self.next_kvm_slot(1) {
            None => Err(VmError::NotEnoughMemorySlots(self.max_memslots)),
            Some(slot) => Ok(
                GuestRegionMmapExt::dram_from_mmap_region(start_addr, size, dirty, slot),
            ),
        }
    }

    /// Takes slots for a region of memory that can be plugged.
    pub fn register_hotpluggable_memory_region(
        &mut self,
        start_addr: u64,
        size: usize,
        dirty: Option<AtomicBitmap>,
        slot_size: usize,
    ) -> (r: Result<GuestRegionMmapExt, VmError>)
        requires
            slot_size > 0,
            size as int % slot_size as int == 0,
            start_addr + size <= u64::MAX,
            size / slot_size < usize::MAX / 16,
            size / slot_size <= u32::MAX ==> old(self).max_memslots + size / slot_size <= u32::MAX,
            dirty matches Some(b) ==> dirty_page(b) > 0,
        ensures
            *final(self) == (VmCommon { next_kvm_slot: final(self).next_kvm_slot, ..*old(self) }),
            size / slot_size > u32::MAX || old(self).max_memslots <= old(self).next_kvm_slot ==> r
                is Err && r->Err_0 == VmError::NotEnoughMemorySlots(old(self).max_memslots),
            size / slot_size <= u32::MAX && old(self).max_memslots > old(self).next_kvm_slot ==> {
                &&& r matches Ok(region)
                &&& final(self).next_kvm_slot == old(self).next_kvm_slot + size / slot_size
                &&& region.wf()
                &&& region.start_addr == start_addr
                &&& region.size == size
                &&& region.region_type == GuestRegionType::Hotpluggable
                &&& region.slot_from == old(self).next_kvm_slot
                &&& region.slot_size == slot_size
                &&& bits(region.plugged) == Seq::new((size / slot_size) as nat, |i: int| false)
                &&& region.dirty == dirty
            },
    {
        let slot_cnt: usize = size / slot_size;
        if slot_cnt as u64 > u32::MAX as u64 {
            return Err(VmError::NotEnoughMemorySlots(self.max_memslots));
        }
        match self.next_kvm_slot(slot_cnt as u32) {
            None => Err(VmError::NotEnoughMemorySlots(self.max_memslots)),
            Some(slot_from) => Ok(
                GuestRegionMmapExt::hotpluggable_from_mmap_region(
                    start_addr,
                    size,
                    dirty,
                    slot_from,
                    slot_size,
                ),
            ),
        }
    }

    /// Takes slots for a region of memory of a saved state.
    pub fn restore_memory_region(
        &mut self,
        state: &GuestMemoryRegionState,
        dirty: Option<AtomicBitmap>,
    ) -> (r: Result<GuestRegionMmapExt, VmError>)
        requires
            state.size > 0,
            state.base_address + state.size <= u64::MAX,
            state.plugged@.len() < usize::MAX / 16,
            state.plugged@.len() <= u32::MAX ==> old(self).max_memslots + state.plugged@.len()
                <= u32::MAX,
            dirty matches Some(b) ==> dirty_page(b) > 0,
        ensures
            *final(self) == (VmCommon { next_kvm_slot: final(self).next_kvm_slot, ..*old(self) }),
            ({
                let cnt = state.plugged@.len() as int;
                if cnt > u32::MAX || old(self).max_memslots <= old(self).next_kvm_slot {
                    r is Err && r->Err_0 == VmError::NotEnoughMemorySlots(old(self).max_memslots)
                } else if cnt == 0 {
                    r is Err && r->Err_0 == VmError::Memory(MemoryError::ZeroSlots)
                } else if state.size as int % cnt != 0 {
                    r is Err && r->Err_0 == VmError::Memory(
                        MemoryError::Unaligned {
                            region_size: state.size as u64,
                            slot_count: cnt as usize,
                        },
                    )
                } else {
                    &&& r matches Ok(region)
                    &&& final(self).next_kvm_slot == old(self).next_kvm_slot + cnt
                    &&& region.wf()
                    &&& region.start_addr == state.base_address
                    &&& region.size == state.size
                    &&& region.region_type == state.region_type
                    &&& region.slot_from == old(self).next_kvm_slot
                    &&& region.slot_size == state.size as int / cnt
                    &&& bits(region.plugged) == state.plugged@
                    &&& region.dirty == dirty
                }
            }),
    {
        let slot_cnt: usize = state.plugged.len();
        if slot_cnt as u64 > u32::MAX as u64 {
            return Err(VmError::NotEnoughMemorySlots(self.max_memslots));
        }
        match self.next_kvm_slot(slot_cnt as u32) {
            None => Err(VmError::NotEnoughMemorySlots(self.max_memslots)),
            Some(slot_from) => match GuestRegionMmapExt::from_state(state, dirty, slot_from) {
                Ok(region) => Ok(region),
                Err(e) => Err(VmError::Memory(e)),
            },
        }
    }

    /// Puts an entry into the routing table.
    fn route(&mut self, entry: RoutingEntry)
        requires
            old(self).wf(),
        ensures
            final(self).wf(),
            *final(self) == (VmCommon { interrupts: final(self).interrupts, ..*old(self) }),
            final(self).interrupts@ == routed(old(self).interrupts@, entry),
    {
        let ghost table = self.interrupts@;
        proof {
            law_one_route_each(table, entry);
        }
        let mut i: usize = 0;
        assert(table.skip(0) =~= table);
        assert(table.take(0) + routed(table, entry) =~= routed(table, entry));
        while i < self.interrupts.len()
            invariant
                *self == *old(self),
                table == self.interrupts@,
                old(self).wf(),
                one_route_each(routed(table, entry)),
                i <= table.len(),
                routed(table, entry) == table.take(i as int) + routed(table.skip(i as int), entry),
            decreases table.len() - i,
        {
            assert(table.skip(i as int)[0] == table[i as int]);
            assert(table.skip(i as int).skip(1) =~= table.skip(i + 1));
            if self.interrupts[i].gsi == entry.gsi {
                self.interrupts.set(i, entry);
                assert(self.interrupts@ =~= routed(table, entry));
                return ;
            }
            assert(table.take(i + 1) =~= table.take(i as int).push(table[i as int]));
            assert(routed(table, entry) =~= table.take(i + 1) + routed(table.skip(i + 1), entry));
            i += 1;
        }
        self.interrupts.push(entry);
        assert(self.interrupts@ =~= routed(table, entry));
    }

    /// Routes the interrupt line of a device to the interrupt controller.
    pub fn register_irq(&mut self, gsi: u32)
        requires
            old(self).wf(),
        ensures
            final(self).wf(),
            *final(self) == (VmCommon { interrupts: final(self).interrupts, ..*old(self) }),
            final(self).interrupts@ == routed(
                old(self).interrupts@,
                RoutingEntry {
                    gsi,
                    route: Route::Irqchip { irqchip: KVM_IRQCHIP_IOAPIC, pin: gsi },
                    masked: false,
                },
            ),
    {
        self.route(
            RoutingEntry {
                gsi,
                route: Route::Irqchip { irqchip: KVM_IRQCHIP_IOAPIC, pin: gsi },
                masked: false,
            },
        );
    }

    /// Routes the interrupt line of a device to a message.
    pub fn register_msi(
        &mut self,
        route: &MsixVector,
        masked: bool,
        config: MsixVectorConfig,
        wants_devid: bool,
    )
        requires
            old(self).wf(),
        ensures
            final(self).wf(),
            *final(self) == (VmCommon { interrupts: final(self).interrupts, ..*old(self) }),
            final(self).interrupts@ == routed(
                old(self).interrupts@,
                RoutingEntry {
                    gsi: route.gsi,
                    route: Route::Msi {
                        address_lo: config.low_addr,
                        address_hi: config.high_addr,
                        data: config.data,
                        devid: if wants_devid {
                            Some(config.devid)
                        } else {
                            None
                        },
                    },
                    masked,
                },
            ),
    {
        self.route(
            RoutingEntry {
                gsi: route.gsi,
                route: Route::Msi {
                    address_lo: config.low_addr,
                    address_hi: config.high_addr,
                    data: config.data,
                    devid: if wants_devid {
                        Some(config.devid)
                    } else {
                        None
                    },
                },
                masked,
            },
        );
    }

    /// Takes interrupt lines for interrupts by message.
    pub fn create_msix_group(&mut self, count: u16) -> (r: Result<Vec<MsixVector>, AllocatorError>)
        requires
            old(self).wf(),
        ensures
            final(self).wf(),
            *final(self) == (VmCommon {
                resource_allocator: ResourceAllocator {
                    gsi_msi_allocator: final(self).resource_allocator.gsi_msi_allocator,
                    ..old(self).resource_allocator
                },
                ..*old(self)
            }),
            r is Ok <==> count <= count_free(old(self).resource_allocator.gsi_msi_allocator.taken()),
            match r {
                Ok(vectors) => {
                    let ids = Seq::new(vectors@.len(), |i: int| vectors@[i].gsi);
                    &&& vectors@.len() == count
                    &&& forall|i: int|
                        0 <= i < vectors@.len() ==> !(#[trigger] vectors@[i]).enabled
                    &&& lowest_free(old(self).resource_allocator.gsi_msi_allocator, ids)
                    &&& allocated_exactly(
                        old(self).resource_allocator.gsi_msi_allocator,
                        final(self).resource_allocator.gsi_msi_allocator,
                        ids,
                    )
                },
                Err(e) => {
                    &&& e == AllocatorError::ResourceNotAvailable
                    &&& final(self).resource_allocator.gsi_msi_allocator.taken() == old(
                        self,
                    ).resource_allocator.gsi_msi_allocator.taken()
                },
            },
    {
        let gsis = match self.resource_allocator.allocate_gsi_msi(count as u32) {
            Ok(gsis) => gsis,
            Err(e) => {
                return Err(e);
            },
        };
        let mut vectors: Vec<MsixVector> = Vec::new();
        let mut i: usize = 0;
        while i < gsis.len()
            invariant
                i <= gsis@.len(),
                vectors@.len() == i,
                forall|j: int|
                    0 <= j < i ==> #[trigger] vectors@[j] == (MsixVector {
                        gsi: gsis@[j],
                        enabled: false,
                    }),
            decreases gsis@.len() - i,
        {
            vectors.push(MsixVector { gsi: gsis[i], enabled: false });
            i += 1;
        }
        assert(Seq::new(vectors@.len(), |i: int| vectors@[i].gsi) =~= gsis@);
        Ok(vectors)
    }

    /// The routes that are handed to the hypervisor.
    pub fn set_gsi_routes(&self) -> (r: Vec<RoutingEntry>)
        ensures
            r@ == active_routes(self.interrupts@),
    {
        let ghost p = |e: RoutingEntry| !e.masked;
        let mut routes: Vec<RoutingEntry> = Vec::new();
        let mut i: usize = 0;
        proof {
            reveal(Seq::filter);
        }
        while i < self.interrupts.len()
            invariant
                i <= self.interrupts@.len(),
                p == (|e: RoutingEntry| !e.masked),
                routes@ == self.interrupts@.take(i as int).filter(p),
            decreases self.interrupts@.len() - i,
        {
            if !self.interrupts[i].masked {
                routes.push(self.interrupts[i]);
            }
            proof {
                reveal(Seq::filter);
                assert(self.interrupts@.take(i + 1).drop_last() =~= self.interrupts@.take(i as int));
            }
            i += 1;
        }
        assert(self.interrupts@.take(i as int) =~= self.interrupts@);
        routes
    }

    /// What is asked for the dirty pages of each plugged slot: the log of the hypervisor, or, where
    /// it keeps none, the pages that are in memory.
    pub fn get_dirty_bitmap(&self) -> (r: Vec<DirtyQuery>)
        requires
            self.wf(),
        ensures
            r@ == dirty_queries(memory_slots(self.guest_memory.regions@)),
    {
        let slots = self.guest_memory.slots();
        let mut queries: Vec<DirtyQuery> = Vec::new();
        let mut i: usize = 0;
        assert(slots@.take(0) =~= Seq::<PlacedSlot>::empty());
        while i < slots.len()
            invariant
                i <= slots@.len(),
                queries@ == dirty_queries(slots@.take(i as int)),
            decreases slots@.len() - i,
        {
            let s = slots[i];
            assert(slots@.take(i + 1).drop_last() =~= slots@.take(i as int));
            if s.plugged {
                queries.push(
                    if s.slot.logged {
                        DirtyQuery::DirtyLog { slot: s.slot.slot, len: s.slot.len }
                    } else {
                        DirtyQuery::Mincore {
                            slot: s.slot.slot,
                            region: s.region,
                            offset: s.slot.offset,
                            len: s.slot.len,
                        }
                    },
                );
            }
            i += 1;
        }
        assert(slots@.take(i as int) =~= slots@);
        queries
    }

    /// What is done to write a snapshot of memory to a file, of which the size is given if it was
    /// there before.
    pub fn snapshot_memory_to_file(&self, file_size: Option<u64>, snapshot_type: SnapshotType) -> (r:
        Vec<SnapshotStep>)
        requires
            self.wf(),
        ensures
            r@ == snapshot_steps(self.guest_memory.regions@, file_size, snapshot_type),
    {
        let ghost regions = self.guest_memory.regions@;
        let mut size: u64 = 0;
        let mut i: usize = 0;
        assert(regions.take(0) =~= Seq::<GuestRegionMmapExt>::empty());
        while i < self.guest_memory.regions.len()
            invariant
                self.wf(),
                regions == self.guest_memory.regions@,
                i <= regions.len(),
                size == memory_size(regions.take(i as int)),
                i > 0 ==> size <= regions[i - 1].start_addr + regions[i - 1].size,
                i == 0 ==> size == 0,
            decreases regions.len() - i,
        {
            proof {
                assert(regions.take(i + 1).drop_last() =~= regions.take(i as int));
                assert(regions[i as int].wf());
                if i > 0 {
                    assert(regions[i - 1].start_addr + regions[i - 1].size <= regions[i as int].start_addr);
                }
            }
            size = size + self.guest_memory.regions[i].size as u64;
            i += 1;
        }
        assert(regions.take(i as int) =~= regions);
        let expected_size: u64 = (size / 0x10_0000) * 0x10_0000;
        let mut steps: Vec<SnapshotStep> = Vec::new();
        if let Some(file_size) = file_size {
            if file_size != expected_size {
                steps.push(SnapshotStep::Truncate);
            }
        }
        steps.push(SnapshotStep::SetLen(expected_size));
        match snapshot_type {
            SnapshotType::Diff => {
                steps.push(SnapshotStep::DumpDirty);
            },
            SnapshotType::Full => {
                steps.push(SnapshotStep::Dump);
                steps.push(SnapshotStep::ResetKvmBitmap);
                steps.push(SnapshotStep::ResetDirty);
            },
        }
        steps.push(SnapshotStep::Flush);
        steps.push(SnapshotStep::SyncAll);
        assert(steps@ =~= snapshot_steps(regions, file_size, snapshot_type));
        steps
    }
}

/// What is asked for the dirty pages of plugged slots.
pub open spec fn dirty_queries(slots: Seq<PlacedSlot>) -> Seq<DirtyQuery>
    decreases slots.len(),
{
    if slots.len() == 0 {
        seq![]
    } else {
        let before = dirty_queries(slots.drop_last());
        let s = slots.last();
        if !s.plugged {
            before
        } else if s.slot.logged {
            before.push(DirtyQuery::DirtyLog { slot: s.slot.slot, len: s.slot.len })
        } else {
            before.push(
                DirtyQuery::Mincore {
                    slot: s.slot.slot,
                    region: s.region,
                    offset: s.slot.offset,
                    len: s.slot.len,
                },
            )
        }
    }
}

/// Slots that are reserved one after the other are different, as long as their numbers do not
/// wrap round.
pub proof fn law_reserved_slots_differ(
    before: VmCommon,
    between: VmCommon,
    after: VmCommon,
    first_cnt: u32,
    second_cnt: u32,
    first: u32,
    second: u32,
    i: int,
    j: int,
)
    requires
        slots_reserved(before, between, first_cnt, Some(first)),
        slots_reserved(between, after, second_cnt, Some(second)),
        before.next_kvm_slot + first_cnt <= u32::MAX,
        0 <= i < first_cnt,
        0 <= j < second_cnt,
    ensures
        first + i != second + j,
{
}

/// What is done to save memory. A file of another length is emptied first. Then a full snapshot
/// writes all memory and forgets which pages were written to, and a diff writes only the pages that
/// changed. In the end the file is on the disk.
pub proof fn law_steps_of_a_snapshot(regions: Seq<GuestRegionMmapExt>, file_size: Option<u64>)
    ensures
        ({
            let size = snapshot_size(regions) as u64;
            let first = if file_size is Some && file_size->0 != size {
                1int
            } else {
                0
            };
            let full = snapshot_steps(regions, file_size, SnapshotType::Full);
            let diff = snapshot_steps(regions, file_size, SnapshotType::Diff);
            &&& first == 1 ==> full[0] == SnapshotStep::Truncate && diff[0]
                == SnapshotStep::Truncate
            &&& full.skip(first) =~= seq![
                SnapshotStep::SetLen(size),
                SnapshotStep::Dump,
                SnapshotStep::ResetKvmBitmap,
                SnapshotStep::ResetDirty,
                SnapshotStep::Flush,
                SnapshotStep::SyncAll,
            ]
            &&& diff.skip(first) =~= seq![
                SnapshotStep::SetLen(size),
                SnapshotStep::DumpDirty,
                SnapshotStep::Flush,
                SnapshotStep::SyncAll,
            ]
        }),
{
}

/// The file of a snapshot is as long as all regions together, if that is a number of whole MiB.
pub proof fn law_snapshot_is_as_long_as_memory(
    regions: Seq<GuestRegionMmapExt>,
    region: GuestRegionMmapExt,
)
    ensures
        memory_size(regions) % 0x10_0000 == 0 ==> snapshot_size(regions) == memory_size(regions),
        memory_size(regions.push(region)) == memory_size(regions) + region.size,
        memory_size(Seq::empty()) == 0,
{
    assert(regions.push(region).drop_last() =~= regions);
}

/// Two regions overlap exactly when some address is in both.
pub proof fn law_regions_overlap_in_an_address(a: GuestRegionMmapExt, b: GuestRegionMmapExt)
    requires
        a.size > 0,
        b.size > 0,
    ensures
        regions_overlap(a, b) <==> exists|addr: int| #[trigger] a.covers(addr) && b.covers(addr),
{
    if regions_overlap(a, b) {
        let addr = if a.start_addr <= b.start_addr {
            b.start_addr as int
        } else {
            a.start_addr as int
        };
        assert(a.covers(addr) && b.covers(addr));
    }
}

/// A plugged slot is given to the hypervisor at its own place in the guest and on the host. One that
/// is not plugged is protected.
pub proof fn law_slots_are_registered_in_place(
    region: GuestRegionMmapExt,
    i: int,
    userspace_addr: u64,
)
    requires
        region.wf(),
        0 <= i < bits(region.plugged).len(),
        userspace_addr + region.size <= u64::MAX,
    ensures
        !bits(region.plugged)[i] ==> register_step(region, i, userspace_addr) == SlotStep::Protect,
        bits(region.plugged)[i] ==> {
            &&& register_step(region, i, userspace_addr) matches SlotStep::SetUserMemoryRegion(r)
            &&& r.slot == region.slot_from + i
            &&& r.guest_phys_addr == region.start_addr + i * region.slot_size
            &&& r.userspace_addr == userspace_addr + i * region.slot_size
            &&& r.memory_size == region.slot_size
            &&& r.flags == (if region.dirty is Some {
                1u32
            } else {
                0
            })
        },
{
    let (s, size) = (region.slot_size as int, region.size as int);
    assert(0 <= i * s && i * s + s <= size) by (nonlinear_arith)
        requires
            0 <= i < size / s,
            s > 0,
    ;
}

/// Exactly the plugged slots are asked about: the hypervisor where it notes writes, the host where
/// it does not.
pub proof fn law_plugged_slots_are_asked_about(slots: Seq<PlacedSlot>, q: DirtyQuery)
    ensures
        dirty_queries(slots).contains(q) <==> exists|k: int|
            0 <= k < slots.len() && #[trigger] asks_about(slots[k], q),
    decreases slots.len(),
{
    let all = dirty_queries(slots);
    if slots.len() > 0 {
        let sooner = slots.drop_last();
        let n = slots.len() - 1;
        law_plugged_slots_are_asked_about(sooner, q);
        let before = dirty_queries(sooner);
        if before.contains(q) {
            let k = choose|k: int| 0 <= k < before.len() && before[k] == q;
            assert(all[k] == q);
            let j = choose|j: int| 0 <= j < sooner.len() && #[trigger] asks_about(sooner[j], q);
            assert(asks_about(slots[j], q));
        }
        if asks_about(slots[n], q) {
            assert(all.last() == q);
            assert(all[all.len() - 1] == q);
        }
        if all.contains(q) && !before.contains(q) {
            let k = choose|k: int| 0 <= k < all.len() && all[k] == q;
            if k < before.len() {
                assert(before[k] == q);
            }
            assert(asks_about(slots[n], q));
        }
        if exists|k: int| 0 <= k < slots.len() && #[trigger] asks_about(slots[k], q) {
            let k = choose|k: int| 0 <= k < slots.len() && #[trigger] asks_about(slots[k], q);
            if k < n {
                assert(asks_about(sooner[k], q));
            }
        }
    }
}

/// Whether a query is the one about a slot.
pub open spec fn asks_about(s: PlacedSlot, q: DirtyQuery) -> bool {
    s.plugged && match q {
        DirtyQuery::DirtyLog { slot, len } => s.slot.logged && slot == s.slot.slot && len
            == s.slot.len,
        DirtyQuery::Mincore { slot, region, offset, len } => !s.slot.logged && slot == s.slot.slot
            && region == s.region && offset == s.slot.offset && len == s.slot.len,
    }
}

/// A new try waits twice as long as the one before it, the first one for one millisecond.
pub proof fn law_waits_double(n: int)
    requires
        n >= 0,
    ensures
        power_of_two(0) == 1,
        power_of_two(n + 1) == 2 * power_of_two(n),
{
}

/// A region is put where the addresses of all regions stay in order: those before its place start
/// below it, and the one at its place does not.
pub proof fn law_regions_stay_in_order(regions: Seq<GuestRegionMmapExt>, addr: int, i: int)
    ensures
        ({
            let place = starting_before(regions, addr);
            &&& 0 <= place <= regions.len()
            &&& 0 <= i < place ==> regions[i].start_addr < addr
            &&& place < regions.len() ==> regions[place].start_addr >= addr
        }),
    decreases regions.len(),
{
    if regions.len() > 0 && regions[0].start_addr < addr {
        law_regions_stay_in_order(regions.skip(1), addr, i - 1);
        let place = starting_before(regions, addr);
        if place < regions.len() {
            assert(regions.skip(1)[place - 1] == regions[place]);
        }
        if 0 < i < place {
            assert(regions.skip(1)[i - 1] == regions[i]);
        }
    }
}

/// The hypervisor is told of the routes that are not masked, in their order, and of no other.
pub proof fn law_masked_routes_are_left_out(table: Seq<RoutingEntry>, entry: RoutingEntry)
    ensures
        active_routes(seq![]) == Seq::<RoutingEntry>::empty(),
        active_routes(table.push(entry)) == (if entry.masked {
            active_routes(table)
        } else {
            active_routes(table).push(entry)
        }),
{
    reveal(Seq::filter);
    assert(table.push(entry).drop_last() =~= table);
}

/// A region is refused exactly when it has an address in common with one that is there.
pub proof fn law_overlapping_regions_are_refused(
    regions: Seq<GuestRegionMmapExt>,
    region: GuestRegionMmapExt,
)
    requires
        region.size > 0,
        forall|i: int| 0 <= i < regions.len() ==> (#[trigger] regions[i]).size > 0,
    ensures
        overlaps_some(regions, region) <==> exists|i: int, a: int|
            #![trigger regions[i].covers(a)]
            0 <= i < regions.len() && regions[i].covers(a) && region.covers(a),
{
    if overlaps_some(regions, region) {
        let i = choose|i: int| 0 <= i < regions.len() && regions_overlap(#[trigger] regions[i], region);
        let a = if regions[i].start_addr <= region.start_addr {
            region.start_addr as int
        } else {
            regions[i].start_addr as int
        };
        assert(regions[i].covers(a) && region.covers(a));
    }
    if exists|i: int, a: int|
        #![trigger regions[i].covers(a)]
        0 <= i < regions.len() && regions[i].covers(a) && region.covers(a) {
        let (i, a) = choose|i: int, a: int|
            #![trigger regions[i].covers(a)]
            0 <= i < regions.len() && regions[i].covers(a) && region.covers(a);
        assert(regions_overlap(regions[i], region));
    }
}

/// A snapshot needs the state of every CPU: any other answer is an error, and a refusal comes with
/// its reason.
pub proof fn law_only_a_state_will_do<S, C>(response: VcpuResponse<S, C>)
    ensures
        state_fault(response) is None <==> response is SavedState,
        response is Error <==> state_fault(response) == Some(VcpuRequestError::Failed),
        response matches VcpuResponse::NotAllowed(reason) ==> state_fault(response) == Some(
            VcpuRequestError::NotAllowed(reason),
        ),
        response is Exited || response is Paused || response is Resumed || response
            is DumpedCpuConfig ==> state_fault(response) == Some(
            VcpuRequestError::UnexpectedResponse,
        ),
{
}

/// Numbers of slots are handed out one after the other and only below the limit: those of a later
/// call come behind those of an earlier one.
pub proof fn law_slot_numbers_follow_each_other(
    before: VmCommon,
    between: VmCommon,
    after: VmCommon,
    count: u32,
    more: u32,
    first: Option<u32>,
    second: Option<u32>,
)
    requires
        slots_reserved(before, between, count, first),
        slots_reserved(between, after, more, second),
        before.next_kvm_slot + count <= u32::MAX,
    ensures
        first is Some <==> before.next_kvm_slot < before.max_memslots,
        first matches Some(n) ==> n == before.next_kvm_slot,
        second is Some <==> before.next_kvm_slot + count < before.max_memslots,
        second matches Some(n) ==> n == before.next_kvm_slot + count,
        between.guest_memory == before.guest_memory,
        between.max_memslots == before.max_memslots,
{
}

} // verus!
