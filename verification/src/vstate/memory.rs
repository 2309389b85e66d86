//! The layout of guest memory: regions, the slots that they are divided into, and the mappings
//! behind them.

use vm_memory::bitmap::{AtomicBitmap, NewBitmap};
use vstd::prelude::*;

use crate::devices::virtio::pmem::device::UserMemoryRegion;
use crate::vstate::resources::{bits, bits_get, bits_len, bits_repeat, bits_replace, BitVector};

verus! {

/// Flag of a memory slot: writes of the guest are recorded.
pub const KVM_MEM_LOG_DIRTY_PAGES: u32 = 1;

/// Mapping flag: writes are shared with other mappings of the file.
pub const MAP_SHARED: i32 = 0x1;

/// Mapping flag: writes stay in this mapping.
pub const MAP_PRIVATE: i32 = 0x2;

/// Mapping flag: there is no file behind the mapping.
pub const MAP_ANONYMOUS: i32 = 0x20;

/// Mapping flag: no swap space is set aside.
pub const MAP_NORESERVE: i32 = 0x4000;

#[verifier::external_type_specification]
#[verifier::external_body]
pub struct ExAtomicBitmap(AtomicBitmap);

/// One bit for each page that a dirty bitmap watches.
pub uninterp spec fn dirty_bits(b: AtomicBitmap) -> Seq<bool>;

/// The size of the pages that a dirty bitmap watches.
pub uninterp spec fn dirty_page(b: AtomicBitmap) -> nat;

/// `AtomicBitmap::with_len` gives a bitmap for `len` bytes in which no page is dirty. The size of
/// a page is that of the host.
#[verifier::external_body]
pub(crate) fn bitmap_with_len(len: usize) -> (b: AtomicBitmap)
    ensures
        dirty_page(b) > 0,
        dirty_bits(b) == clean_bits(len as int, dirty_page(b) as int),
{
    AtomicBitmap::with_len(len)
}

/// `AtomicBitmap::set_addr_range` marks the pages that a range of addresses touches. Pages past the
/// end of the bitmap are left out, and the range ends where addresses do.
#[verifier::external_body]
pub(crate) fn bitmap_mark(b: &mut AtomicBitmap, offset: usize, len: usize)
    ensures
        dirty_page(*final(b)) == dirty_page(*old(b)),
        dirty_bits(*final(b)) == marked_bits(
            dirty_bits(*old(b)),
            dirty_page(*old(b)) as int,
            offset as int,
            len as int,
        ),
{
    b.set_addr_range(offset, len)
}

/// `AtomicBitmap::is_addr_set` says whether the page of an address is marked. Pages past the end of
/// the bitmap are not.
#[verifier::external_body]
pub(crate) fn bitmap_dirty_at(b: &AtomicBitmap, offset: usize) -> (r: bool)
    ensures
        r == dirty_at(dirty_bits(*b), dirty_page(*b) as int, offset as int),
{
    b.is_addr_set(offset)
}

/// `AtomicBitmap::reset` unmarks all pages.
#[verifier::external_body]
pub(crate) fn bitmap_reset(b: &mut AtomicBitmap)
    ensures
        dirty_page(*final(b)) == dirty_page(*old(b)),
        dirty_bits(*final(b)) == Seq::new(dirty_bits(*old(b)).len(), |i: int| false),
{
    b.reset()
}

/// The bits for a number of bytes in which no page is dirty.
pub open spec fn clean_bits(len: int, page: int) -> Seq<bool> {
    Seq::new(((len + page - 1) / page) as nat, |i: int| false)
}

/// Whether a range of addresses touches a page.
pub open spec fn touches(page: int, offset: int, len: int, n: int) -> bool {
    len > 0 && offset / page <= n <= (if offset + len - 1 <= usize::MAX {
        offset + len - 1
    } else {
        usize::MAX as int
    }) / page
}

/// The bits after a range of addresses was marked.
pub open spec fn marked_bits(b: Seq<bool>, page: int, offset: int, len: int) -> Seq<bool> {
    Seq::new(b.len(), |n: int| b[n] || touches(page, offset, len, n))
}

/// Whether the page of an address is marked.
pub open spec fn dirty_at(b: Seq<bool>, page: int, offset: int) -> bool {
    offset / page < b.len() && b[offset / page]
}

/// Why guest memory cannot be set up or written out.
#[derive(Debug, Clone, Copy, PartialEq, Eq, Structural)]
pub enum MemoryError {
    /// A region lies outside of the address space.
    VmMemoryError,
    /// The regions exceed the largest file offset.
    OffsetTooLarge,
    /// The size of the file is not known.
    FileMetadata,
    /// A region has no slots.
    ZeroSlots,
    /// A region cannot be divided evenly into slots.
    Unaligned {
        /// Size of the region.
        region_size: u64,
        /// Number of slots.
        slot_count: usize,
    },
    /// There is no dirty bitmap for a slot.
    DirtyBitmapNotFound(u32),
    /// A dirty bitmap is larger than its slot.
    DirtyBitmapTooLarge,
    /// A dirty bitmap is smaller than its slot.
    DirtyBitmapTooSmall,
    /// A dirty page reaches past the end of its slot.
    OutOfBounds,
}

/// Why a range of guest memory cannot be used.
#[derive(Debug, Clone, Copy, PartialEq, Eq, Structural)]
pub enum GuestMemoryError {
    /// The address is in no region.
    InvalidGuestAddress(u64),
    /// A slot in the range is not plugged.
    HostAddressNotAvailable,
}

/// The purpose of a region.
#[derive(Debug, Clone, Copy, PartialEq, Eq, Structural)]
pub enum GuestRegionType {
    /// Memory that is there from the start.
    Dram,
    /// Memory that can be plugged.
    Hotpluggable,
}

/// A region of guest memory, divided into slots of equal size.
#[derive(Debug)]
pub struct GuestRegionMmapExt {
    /// Guest address of the first byte.
    pub start_addr: u64,
    /// Number of bytes.
    pub size: usize,
    /// The purpose of the region.
    pub region_type: GuestRegionType,
    /// Number of the first slot.
    pub slot_from: u32,
    /// Number of bytes of a slot.
    pub slot_size: usize,
    /// Which slots are plugged.
    pub plugged: BitVector,
    /// Which pages were written to, if that is recorded.
    pub dirty: Option<AtomicBitmap>,
}

/// A slot of guest memory.
#[derive(Debug, Clone, Copy, PartialEq, Eq, Structural)]
pub struct GuestMemorySlot {
    /// Number of the slot.
    pub slot: u32,
    /// Guest address of the first byte.
    pub guest_addr: u64,
    /// Offset in the region.
    pub offset: usize,
    /// Number of bytes.
    pub len: usize,
    /// Whether writes are recorded.
    pub logged: bool,
}

impl GuestMemorySlot {
    /// The region that is handed to the hypervisor, for a slot at a host address.
    pub fn kvm_region(&self, userspace_addr: u64) -> (r: UserMemoryRegion)
        ensures
            r == self.as_kvm_region(userspace_addr),
    {
        UserMemoryRegion {
            slot: self.slot,
            guest_phys_addr: self.guest_addr,
            memory_size: self.len as u64,
            userspace_addr,
            flags: if self.logged {
                KVM_MEM_LOG_DIRTY_PAGES
            } else {
                0
            },
        }
    }

    /// The region that is handed to the hypervisor, for a slot at a host address.
    pub open spec fn as_kvm_region(self, userspace_addr: u64) -> UserMemoryRegion {
        UserMemoryRegion {
            slot: self.slot,
            guest_phys_addr: self.guest_addr,
            memory_size: self.len as u64,
            userspace_addr,
            flags: if self.logged {
                KVM_MEM_LOG_DIRTY_PAGES
            } else {
                0
            },
        }
    }

    /// Whether an address lies in the slot.
    pub open spec fn holds(self, addr: int) -> bool {
        self.guest_addr <= addr < self.guest_addr + self.len
    }

    /// Whether the slot and a range of addresses have an address in common. A range that leaves
    /// the address space has none.
    pub open spec fn meets(self, from: int, len: int) -> bool {
        &&& self.guest_addr + self.len <= u64::MAX
        &&& from + len <= u64::MAX
        &&& self.guest_addr < from + len
        &&& from < self.guest_addr + self.len
    }

    /// Whether the slot and a range of addresses have an address in common.
    pub fn intersects(&self, from: u64, len: usize) -> (r: bool)
        ensures
            r == self.meets(from as int, len as int),
    {
        let slot_end = match self.guest_addr.checked_add(self.len as u64) {
            Some(end) => end,
            None => {
                return false;
            },
        };
        let range_end = match from.checked_add(len as u64) {
            Some(end) => end,
            None => {
                return false;
            },
        };
        self.guest_addr < range_end && from < slot_end
    }
}

/// What is done to the memory behind a slot.
#[derive(Debug, Clone, Copy, PartialEq, Eq, Structural)]
pub enum SlotStep {
    /// The host may access the memory from now on.
    Allow,
    /// The host may not access the memory from now on.
    Protect,
    /// The region is handed to the hypervisor.
    SetUserMemoryRegion(UserMemoryRegion),
}

/// What it takes to plug or unplug a slot. Memory is accessible for as long as the hypervisor has
/// it.
pub open spec fn slot_steps(
    slot: GuestMemorySlot,
    was: bool,
    plug: bool,
    userspace_addr: u64,
) -> Seq<SlotStep> {
    let region = slot.as_kvm_region(userspace_addr);
    if was == plug {
        seq![]
    } else if plug {
        seq![SlotStep::Allow, SlotStep::SetUserMemoryRegion(region)]
    } else {
        seq![
            SlotStep::SetUserMemoryRegion(UserMemoryRegion { memory_size: 0, ..region }),
            SlotStep::Protect,
        ]
    }
}

/// The slots among which something holds of a slot and its state.
pub open spec fn chosen(
    slots: Seq<(GuestMemorySlot, bool)>,
    p: spec_fn((GuestMemorySlot, bool)) -> bool,
) -> Seq<(GuestMemorySlot, bool)> {
    slots.filter(p)
}

/// An index below a quotient leaves room for one more divisor.
proof fn lemma_slot_inside(i: int, slot_size: int, size: int)
    requires
        0 <= i < size / slot_size,
        slot_size > 0,
    ensures
        0 <= i * slot_size,
        i * slot_size + slot_size <= size,
{
    assert(i * slot_size >= 0 && i * slot_size + slot_size <= size) by (nonlinear_arith)
        requires
            0 <= i < size / slot_size,
            slot_size > 0,
    ;
}

impl GuestRegionMmapExt {
    /// The region lies in the address space and there is a bit for each slot.
    pub open spec fn wf(self) -> bool {
        &&& self.slot_size > 0
        &&& self.start_addr + self.size <= u64::MAX
        &&& bits(self.plugged).len() == self.size / self.slot_size
        &&& self.slot_from + bits(self.plugged).len() <= u32::MAX
        &&& self.dirty matches Some(b) ==> dirty_page(b) > 0
    }

    /// Whether an address is in the region.
    pub open spec fn covers(self, addr: int) -> bool {
        self.start_addr <= addr < self.start_addr + self.size
    }

    /// The slot at an index.
    pub open spec fn slot_at(self, i: int) -> GuestMemorySlot {
        GuestMemorySlot {
            slot: (self.slot_from + i) as u32,
            guest_addr: (self.start_addr + i * self.slot_size) as u64,
            offset: (i * self.slot_size) as usize,
            len: self.slot_size,
            logged: self.dirty is Some,
        }
    }

    /// All slots and whether they are plugged.
    pub open spec fn all_slots(self) -> Seq<(GuestMemorySlot, bool)> {
        Seq::new(bits(self.plugged).len(), |i: int| (self.slot_at(i), bits(self.plugged)[i]))
    }

    /// Whether a slot that is not plugged meets a range of addresses.
    pub open spec fn has_gap(self, from: int, len: int) -> bool {
        exists|i: int|
            0 <= i < bits(self.plugged).len() && !bits(self.plugged)[i] && #[trigger] self.slot_at(
                i,
            ).meets(from, len)
    }

    /// A region of memory that is there from the start: one slot, which is plugged.
    pub fn dram_from_mmap_region(
        start_addr: u64,
        size: usize,
        dirty: Option<AtomicBitmap>,
        slot: u32,
    ) -> (r: GuestRegionMmapExt)
        requires
            size > 0,
            start_addr + size <= u64::MAX,
            slot < u32::MAX,
            dirty matches Some(b) ==> dirty_page(b) > 0,
        ensures
            r.wf(),
            r.start_addr == start_addr,
            r.size == size,
            r.region_type == GuestRegionType::Dram,
            r.slot_from == slot,
            r.slot_size == size,
            bits(r.plugged) == seq![true],
            r.dirty == dirty,
    {
        let plugged = bits_repeat(true, 1);
        assert(bits(plugged) =~= seq![true]);
        assert(size as int / size as int == 1) by (nonlinear_arith)
            requires
                size > 0,
        ;
        GuestRegionMmapExt {
            start_addr,
            size,
            region_type: GuestRegionType::Dram,
            slot_from: slot,
            slot_size: size,
            plugged,
            dirty,
        }
    }

    /// A region of memory that can be plugged, of which no slot is.
    pub fn hotpluggable_from_mmap_region(
        start_addr: u64,
        size: usize,
        dirty: Option<AtomicBitmap>,
        slot_from: u32,
        slot_size: usize,
    ) -> (r: GuestRegionMmapExt)
        requires
            slot_size > 0,
            start_addr + size <= u64::MAX,
            slot_from + size / slot_size <= u32::MAX,
            size / slot_size < usize::MAX / 16,
            dirty matches Some(b) ==> dirty_page(b) > 0,
        ensures
            r.wf(),
            r.start_addr == start_addr,
            r.size == size,
            r.region_type == GuestRegionType::Hotpluggable,
            r.slot_from == slot_from,
            r.slot_size == slot_size,
            bits(r.plugged) == Seq::new((size / slot_size) as nat, |i: int| false),
            r.dirty == dirty,
    {
        let slot_cnt: usize = size / slot_size;
        GuestRegionMmapExt {
            start_addr,
            size,
            region_type: GuestRegionType::Hotpluggable,
            slot_from,
            slot_size,
            plugged: bits_repeat(false, slot_cnt),
            dirty,
        }
    }

    /// Whether the region is the one that a state describes, with the slots from `slot_from` on.
    pub open spec fn is_restored(self, state: GuestMemoryRegionState, slot_from: u32) -> bool {
        &&& self.start_addr == state.base_address
        &&& self.size == state.size
        &&& self.region_type == state.region_type
        &&& self.slot_from == slot_from
        &&& self.slot_size == state.size as int / state.plugged@.len() as int
        &&& bits(self.plugged) == state.plugged@
    }

    /// The region that a saved state describes. It must be divided evenly.
    pub fn from_state(
        state: &GuestMemoryRegionState,
        dirty: Option<AtomicBitmap>,
        slot_from: u32,
    ) -> (r: Result<GuestRegionMmapExt, MemoryError>)
        requires
            state.size > 0,
            state.base_address + state.size <= u64::MAX,
            slot_from + state.plugged@.len() <= u32::MAX,
            state.plugged@.len() < usize::MAX / 16,
            dirty matches Some(b) ==> dirty_page(b) > 0,
        ensures
            state.plugged@.len() == 0 ==> r is Err && r->Err_0 == MemoryError::ZeroSlots,
            state.plugged@.len() > 0 && state.size as int % state.plugged@.len() as int != 0 ==> r is Err
                && r->Err_0 == (MemoryError::Unaligned {
                region_size: state.size as u64,
                slot_count: state.plugged@.len() as usize,
            }),
            state.plugged@.len() > 0 && state.size as int % state.plugged@.len() as int == 0 ==> {
                &&& r matches Ok(region)
                &&& region.wf()
                &&& region.is_restored(*state, slot_from)
                &&& region.dirty == dirty
            },
    {
        let slot_cnt: usize = state.plugged.len();
        if slot_cnt == 0 {
            return Err(MemoryError::ZeroSlots);
        }
        let slot_size: usize = state.size / slot_cnt;
        if state.size % slot_cnt != 0 {
            return Err(
                MemoryError::Unaligned { region_size: state.size as u64, slot_count: slot_cnt },
            );
        }
        proof {
            let (n, c) = (state.size as int, slot_cnt as int);
            vstd::arithmetic::div_mod::lemma_fundamental_div_mod(n, c);
            assert(slot_size > 0) by (nonlinear_arith)
                requires
                    n > 0,
                    c > 0,
                    n == c * (n / c),
                    slot_size == n / c,
            ;
            assert(n / (slot_size as int) == c) by (nonlinear_arith)
                requires
                    n == c * slot_size,
                    slot_size > 0,
            ;
        }
        let mut plugged = bits_repeat(false, slot_cnt);
        let mut i: usize = 0;
        while i < slot_cnt
            invariant
                slot_cnt == state.plugged@.len(),
                i <= slot_cnt,
                bits(plugged).len() == slot_cnt,
                forall|j: int| 0 <= j < i ==> bits(plugged)[j] == #[trigger] state.plugged@[j],
            decreases slot_cnt - i,
        {
            bits_replace(&mut plugged, i, state.plugged[i]);
            i += 1;
        }
        assert(bits(plugged) =~= state.plugged@);
        Ok(
            GuestRegionMmapExt {
                start_addr: state.base_address,
                size: state.size,
                region_type: state.region_type,
                slot_from,
                slot_size,
                plugged,
                dirty,
            },
        )
    }

    /// The number of slots.
    pub fn slot_cnt(&self) -> (r: u32)
        requires
            self.wf(),
        ensures
            r == bits(self.plugged).len(),
    {
        (self.size / self.slot_size) as u32
    }

    /// The slot with a number.
    pub fn mem_slot(&self, slot: u32) -> (r: GuestMemorySlot)
        requires
            self.wf(),
            self.slot_from <= slot < self.slot_from + bits(self.plugged).len(),
        ensures
            r == self.slot_at(slot - self.slot_from),
            r.slot == slot,
            r.guest_addr == self.start_addr + r.offset,
            r.offset + r.len <= self.size,
    {
        proof {
            lemma_slot_inside(slot - self.slot_from, self.slot_size as int, self.size as int);
        }
        let offset: usize = (slot - self.slot_from) as usize * self.slot_size;
        GuestMemorySlot {
            slot,
            guest_addr: self.start_addr + offset as u64,
            offset,
            len: self.slot_size,
            logged: self.dirty.is_some(),
        }
    }

    /// All slots and whether they are plugged.
    pub fn slots(&self) -> (r: Vec<(GuestMemorySlot, bool)>)
        requires
            self.wf(),
        ensures
            r@ == self.all_slots(),
    {
        let mut slots: Vec<(GuestMemorySlot, bool)> = Vec::new();
        let cnt: u32 = self.slot_cnt();
        let mut i: u32 = 0;
        while i < cnt
            invariant
                self.wf(),
                cnt == bits(self.plugged).len(),
                i <= cnt,
                slots@ == self.all_slots().take(i as int),
            decreases cnt - i,
        {
            match bits_get(&self.plugged, i as usize) {
                Some(plugged) => {
                    slots.push((self.mem_slot(self.slot_from + i), plugged));
                },
                None => {},
            }
            assert(slots@ =~= self.all_slots().take(i + 1));
            i += 1;
        }
        assert(slots@ =~= self.all_slots());
        slots
    }

    /// The slots that are plugged.
    pub fn plugged_slots(&self) -> (r: Vec<(GuestMemorySlot, bool)>)
        requires
            self.wf(),
        ensures
            r@ == chosen(self.all_slots(), |s: (GuestMemorySlot, bool)| s.1),
    {
        let slots = self.slots();
        let ghost p = |s: (GuestMemorySlot, bool)| s.1;
        let mut found: Vec<(GuestMemorySlot, bool)> = Vec::new();
        let mut i: usize = 0;
        proof {
            reveal(Seq::filter);
        }
        while i < slots.len()
            invariant
                i <= slots@.len(),
                found@ == slots@.take(i as int).filter(p),
                p == (|s: (GuestMemorySlot, bool)| s.1),
            decreases slots@.len() - i,
        {
            if slots[i].1 {
                found.push(slots[i]);
            }
            proof {
                reveal(Seq::filter);
                assert(slots@.take(i + 1).drop_last() =~= slots@.take(i as int));
            }
            i += 1;
        }
        assert(slots@.take(i as int) =~= slots@);
        found
    }

    /// The slots that have an address in common with a range.
    pub fn slots_intersecting_range(&self, from: u64, len: usize) -> (r: Vec<
        (GuestMemorySlot, bool),
    >)
        requires
            self.wf(),
        ensures
            r@ == chosen(
                self.all_slots(),
                |s: (GuestMemorySlot, bool)| s.0.meets(from as int, len as int),
            ),
    {
        let slots = self.slots();
        let ghost p = |s: (GuestMemorySlot, bool)| s.0.meets(from as int, len as int);
        let mut found: Vec<(GuestMemorySlot, bool)> = Vec::new();
        let mut i: usize = 0;
        proof {
            reveal(Seq::filter);
        }
        while i < slots.len()
            invariant
                i <= slots@.len(),
                found@ == slots@.take(i as int).filter(p),
                p == (|s: (GuestMemorySlot, bool)| s.0.meets(from as int, len as int)),
            decreases slots@.len() - i,
        {
            if slots[i].0.intersects(from, len) {
                found.push(slots[i]);
            }
            proof {
                reveal(Seq::filter);
                assert(slots@.take(i + 1).drop_last() =~= slots@.take(i as int));
            }
            i += 1;
        }
        assert(slots@.take(i as int) =~= slots@);
        found
    }

    /// Whether all slots that a range of the region meets are plugged.
    pub fn check_range_plugged(&self, caddr: u64, len: usize) -> (r: Result<(), GuestMemoryError>)
        requires
            self.wf(),
            caddr <= self.size,
        ensures
            self.has_gap(self.start_addr + caddr, len as int) ==> r is Err && r->Err_0
                == GuestMemoryError::HostAddressNotAvailable,
            !self.has_gap(self.start_addr + caddr, len as int) ==> r is Ok,
    {
        let from: u64 = self.start_addr + caddr;
        let slots = self.slots();
        let mut i: usize = 0;
        while i < slots.len()
            invariant
                slots@ == self.all_slots(),
                from == self.start_addr + caddr,
                i <= slots@.len(),
                forall|j: int|
                    0 <= j < i && !bits(self.plugged)[j] ==> !(#[trigger] self.slot_at(j)).meets(
                        from as int,
                        len as int,
                    ),
            decreases slots@.len() - i,
        {
            assert(slots@[i as int] == (self.slot_at(i as int), bits(self.plugged)[i as int]));
            if slots[i].0.intersects(from, len) && !slots[i].1 {
                return Err(GuestMemoryError::HostAddressNotAvailable);
            }
            i += 1;
        }
        Ok(())
    }

    /// Plugs or unplugs a slot, and says what is to be done about the memory behind it.
    pub fn update_slot(&mut self, mem_slot: &GuestMemorySlot, plug: bool, userspace_addr: u64) -> (r:
        Vec<SlotStep>)
        requires
            old(self).wf(),
            old(self).region_type == GuestRegionType::Hotpluggable,
            old(self).slot_from <= mem_slot.slot < old(self).slot_from + bits(
                old(self).plugged,
            ).len(),
        ensures
            final(self).wf(),
            *final(self) == (GuestRegionMmapExt { plugged: final(self).plugged, ..*old(self) }),
            bits(final(self).plugged) == bits(old(self).plugged).update(
                mem_slot.slot - old(self).slot_from,
                plug,
            ),
            r@ == slot_steps(
                *mem_slot,
                bits(old(self).plugged)[mem_slot.slot - old(self).slot_from],
                plug,
                userspace_addr,
            ),
    {
        let prev: bool = bits_replace(
            &mut self.plugged,
            (mem_slot.slot - self.slot_from) as usize,
            plug,
        );
        let mut steps: Vec<SlotStep> = Vec::new();
        if prev == plug {
            return steps;
        }
        let mut kvm_region = mem_slot.kvm_region(userspace_addr);
        if plug {
            steps.push(SlotStep::Allow);
            steps.push(SlotStep::SetUserMemoryRegion(kvm_region));
        } else {
            kvm_region.memory_size = 0;
            steps.push(SlotStep::SetUserMemoryRegion(kvm_region));
            steps.push(SlotStep::Protect);
        }
        steps
    }

    /// What is saved of the region.
    pub open spec fn described(self, state: GuestMemoryRegionState) -> bool {
        &&& state.base_address == self.start_addr
        &&& state.size == self.size
        &&& state.region_type == self.region_type
        &&& state.plugged@ == bits(self.plugged)
    }

    /// What is saved of the region.
    pub fn describe(&self) -> (r: GuestMemoryRegionState)
        requires
            self.wf(),
        ensures
            self.described(r),
    {
        let mut plugged: Vec<bool> = Vec::new();
        let cnt: usize = bits_len(&self.plugged);
        let mut i: usize = 0;
        while i < cnt
            invariant
                cnt == bits(self.plugged).len(),
                i <= cnt,
                plugged@ == bits(self.plugged).take(i as int),
            decreases cnt - i,
        {
            match bits_get(&self.plugged, i) {
                Some(bit) => {
                    plugged.push(bit);
                },
                None => {},
            }
            assert(plugged@ =~= bits(self.plugged).take(i + 1));
            i += 1;
        }
        assert(plugged@ =~= bits(self.plugged));
        GuestMemoryRegionState {
            base_address: self.start_addr,
            size: self.size,
            region_type: self.region_type,
            plugged,
        }
    }
}

/// Saved state of a region.
#[derive(Debug)]
pub struct GuestMemoryRegionState {
    /// Guest address of the first byte.
    pub base_address: u64,
    /// Number of bytes.
    pub size: usize,
    /// The purpose of the region.
    pub region_type: GuestRegionType,
    /// Which slots are plugged.
    pub plugged: Vec<bool>,
}

/// Saved layout of guest memory.
#[derive(Debug)]
pub struct GuestMemoryState {
    /// The regions.
    pub regions: Vec<GuestMemoryRegionState>,
}

impl Default for GuestMemoryState {
    fn default() -> (r: GuestMemoryState)
        ensures
            r.regions@.len() == 0,
    {
        GuestMemoryState { regions: Vec::new() }
    }
}

impl GuestMemoryState {
    /// Address and size of each region.
    pub open spec fn spans(self) -> Seq<(u64, usize)> {
        Seq::new(
            self.regions@.len(),
            |i: int| (self.regions@[i].base_address, self.regions@[i].size),
        )
    }

    /// Address and size of each region.
    pub fn regions(&self) -> (r: Vec<(u64, usize)>)
        ensures
            r@ == self.spans(),
    {
        let mut spans: Vec<(u64, usize)> = Vec::new();
        let mut i: usize = 0;
        while i < self.regions.len()
            invariant
                i <= self.regions@.len(),
                spans@ == self.spans().take(i as int),
            decreases self.regions@.len() - i,
        {
            spans.push((self.regions[i].base_address, self.regions[i].size));
            assert(spans@ =~= self.spans().take(i + 1));
            i += 1;
        }
        assert(spans@ =~= self.spans());
        spans
    }
}

/// A region that is divided evenly comes back from what is saved of it.
pub proof fn law_saved_region_comes_back(
    region: GuestRegionMmapExt,
    state: GuestMemoryRegionState,
    back: GuestRegionMmapExt,
)
    requires
        region.wf(),
        region.size > 0,
        region.size as int % region.slot_size as int == 0,
        region.described(state),
        back.wf(),
        back.is_restored(state, region.slot_from),
        back.dirty is Some == region.dirty is Some,
    ensures
        state.plugged@.len() > 0,
        state.size as int % state.plugged@.len() as int == 0,
        back.start_addr == region.start_addr,
        back.size == region.size,
        back.region_type == region.region_type,
        back.slot_size == region.slot_size,
        bits(back.plugged) == bits(region.plugged),
        back.all_slots() == region.all_slots(),
{
    let (n, s, c) = (
        region.size as int,
        region.slot_size as int,
        bits(region.plugged).len() as int,
    );
    vstd::arithmetic::div_mod::lemma_fundamental_div_mod(n, s);
    assert(c > 0) by (nonlinear_arith)
        requires
            n > 0,
            n == s * c,
            c >= 0,
    ;
    assert(n / c == s && n % c == 0) by (nonlinear_arith)
        requires
            n == s * c,
            c > 0,
    ;
    assert(back.all_slots() =~= region.all_slots());
}

/// In a region that is divided evenly, a range without gap lies in plugged slots.
pub proof fn law_checked_range_is_plugged(region: GuestRegionMmapExt, caddr: int, len: int, at: int)
    requires
        region.wf(),
        region.size as int % region.slot_size as int == 0,
        0 <= caddr,
        caddr + len <= region.size,
        !region.has_gap(region.start_addr + caddr, len),
        caddr <= at < caddr + len,
    ensures
        0 <= at / region.slot_size as int,
        at / (region.slot_size as int) < bits(region.plugged).len(),
        bits(region.plugged)[at / region.slot_size as int],
{
    let (n, s, c) = (
        region.size as int,
        region.slot_size as int,
        bits(region.plugged).len() as int,
    );
    let i = at / s;
    vstd::arithmetic::div_mod::lemma_fundamental_div_mod(n, s);
    vstd::arithmetic::div_mod::lemma_fundamental_div_mod(at, s);
    assert(0 <= i < c) by (nonlinear_arith)
        requires
            n == s * c,
            0 <= at < n,
            s > 0,
            at == s * i + at % s,
            0 <= at % s < s,
    ;
    lemma_slot_inside(i, s, n);
    assert(s * i == i * s) by (nonlinear_arith);
    let slot = region.slot_at(i);
    assert(slot.guest_addr == region.start_addr + i * s);
    if !bits(region.plugged)[i] {
        assert(slot.meets(region.start_addr + caddr, len));
    }
}

/// Memory behind a slot is accessible before the hypervisor has it, and is taken from the
/// hypervisor before it is protected.
pub proof fn law_hypervisor_has_accessible_memory(
    slot: GuestMemorySlot,
    was: bool,
    plug: bool,
    userspace_addr: u64,
)
    requires
        was != plug,
    ensures
        plug ==> slot_steps(slot, was, plug, userspace_addr).first() == SlotStep::Allow,
        !plug ==> slot_steps(slot, was, plug, userspace_addr).last() == SlotStep::Protect,
        !plug ==> slot_steps(slot, was, plug, userspace_addr).first() == (
        SlotStep::SetUserMemoryRegion(
            UserMemoryRegion { memory_size: 0, ..slot.as_kvm_region(userspace_addr) },
        )),
{
}

/// The slots of a region lie one behind the other and have consecutive numbers. Each address of the
/// first `n * slot_size` bytes, `n` being the number of slots, lies in the slot that it should.
pub proof fn law_slots_divide_the_region(region: GuestRegionMmapExt, x: int)
    requires
        region.wf(),
        0 <= x < bits(region.plugged).len() * region.slot_size,
    ensures
        ({
            let i = x / region.slot_size as int;
            let slot = region.slot_at(i);
            &&& 0 <= i < bits(region.plugged).len()
            &&& slot.slot == region.slot_from + i
            &&& slot.guest_addr == region.start_addr + slot.offset
            &&& slot.offset <= x < slot.offset + slot.len
            &&& slot.offset as int % slot.len as int == 0
            &&& slot.len == region.slot_size
        }),
{
    let s = region.slot_size as int;
    let c = bits(region.plugged).len() as int;
    let i = x / s;
    assert(0 <= i < c && i * s <= x < i * s + s) by (nonlinear_arith)
        requires
            i == x / s,
            0 <= x < c * s,
            s > 0,
    ;
    lemma_slot_inside(i, s, region.size as int);
    assert((i * s) % s == 0) by {
        vstd::arithmetic::div_mod::lemma_mod_multiples_basic(i, s);
    }
}

/// A slot meets a range exactly when some address is in both.
pub proof fn law_slots_meet_where_they_overlap(slot: GuestMemorySlot, from: int, len: int)
    requires
        slot.guest_addr + slot.len <= u64::MAX,
        0 <= from,
        from + len <= u64::MAX,
        slot.len > 0,
        len > 0,
    ensures
        slot.meets(from, len) <==> exists|a: int|
            #![trigger slot.holds(a)]
            slot.holds(a) && from <= a < from + len,
{
    if slot.meets(from, len) {
        let a = if slot.guest_addr <= from {
            from
        } else {
            slot.guest_addr as int
        };
        assert(slot.holds(a) && from <= a < from + len);
    }
}

/// What the hypervisor is told of a slot: where it lies in the guest and on the host, how long it
/// is, and whether writes to it are noted.
pub proof fn law_hypervisor_is_told_of_slots(slot: GuestMemorySlot, userspace_addr: u64)
    ensures
        ({
            let region = slot.as_kvm_region(userspace_addr);
            &&& region.slot == slot.slot
            &&& region.guest_phys_addr == slot.guest_addr
            &&& region.memory_size == slot.len
            &&& region.userspace_addr == userspace_addr
            &&& region.flags == (if slot.logged {
                1u32
            } else {
                0
            })
        }),
{
}

/// A slot that is plugged can be accessed before the hypervisor gets it, and one that is unplugged
/// is taken from the hypervisor before it is protected. Nothing happens to a slot that stays.
pub proof fn law_slots_are_switched_in_order(
    slot: GuestMemorySlot,
    was: bool,
    plug: bool,
    userspace_addr: u64,
)
    ensures
        ({
            let steps = slot_steps(slot, was, plug, userspace_addr);
            &&& was == plug ==> steps.len() == 0
            &&& was != plug ==> steps.len() == 2
            &&& !was && plug ==> {
                &&& steps[0] == SlotStep::Allow
                &&& steps[1] matches SlotStep::SetUserMemoryRegion(region)
                &&& region.slot == slot.slot
                &&& region.memory_size == slot.len
                &&& region.guest_phys_addr == slot.guest_addr
            }
            &&& was && !plug ==> {
                &&& steps[0] matches SlotStep::SetUserMemoryRegion(region)
                &&& region.slot == slot.slot
                &&& region.memory_size == 0
                &&& steps[1] == SlotStep::Protect
            }
        }),
{
}

/// Marking addresses marks the pages that hold one of them, and no other; marks that are there stay.
pub proof fn law_pages_of_addresses_are_marked(
    b: Seq<bool>,
    page: int,
    offset: int,
    len: int,
    n: int,
)
    requires
        page > 0,
        0 <= offset,
        0 <= len,
        offset + len <= usize::MAX,
        0 <= n < b.len(),
    ensures
        marked_bits(b, page, offset, len).len() == b.len(),
        marked_bits(b, page, offset, len)[n] <==> b[n] || exists|a: int|
            #![trigger a / page]
            offset <= a < offset + len && a / page == n,
{
    if len > 0 && touches(page, offset, len, n) {
        let a = if offset / page == n {
            offset
        } else {
            n * page
        };
        let last = offset + len - 1;
        assert(offset <= a <= last && a / page == n) by {
            vstd::arithmetic::div_mod::lemma_fundamental_div_mod(offset, page);
            vstd::arithmetic::div_mod::lemma_fundamental_div_mod(last, page);
            vstd::arithmetic::div_mod::lemma_mod_bound(offset, page);
            vstd::arithmetic::div_mod::lemma_mod_bound(last, page);
            if offset / page != n {
                vstd::arithmetic::div_mod::lemma_div_by_multiple(n, page);
                let q = offset / page;
                let z = last / page;
                assert(page * (q + 1) <= page * n) by (nonlinear_arith)
                    requires
                        q + 1 <= n,
                        page > 0,
                ;
                assert(page * n <= page * z) by (nonlinear_arith)
                    requires
                        n <= z,
                        page > 0,
                ;
                assert(page * (q + 1) == page * q + page) by (nonlinear_arith);
                assert(n * page == page * n) by (nonlinear_arith);
            }
        }
    }
    if exists|a: int| #![trigger a / page] offset <= a < offset + len && a / page == n {
        let a = choose|a: int| #![trigger a / page] offset <= a < offset + len && a / page == n;
        vstd::arithmetic::div_mod::lemma_div_is_ordered(offset, a, page);
        vstd::arithmetic::div_mod::lemma_div_is_ordered(a, offset + len - 1, page);
    }
}

/// A bitmap has one bit for every page that begins within its bytes, and none is set at first.
pub proof fn law_fresh_bitmap(len: int, page: int, n: int)
    requires
        page > 0,
        0 <= len,
    ensures
        0 <= n < clean_bits(len, page).len() <==> 0 <= n && n * page < len,
        0 <= n < clean_bits(len, page).len() ==> !clean_bits(len, page)[n],
{
    let count = (len + page - 1) / page;
    vstd::arithmetic::div_mod::lemma_fundamental_div_mod(len + page - 1, page);
    vstd::arithmetic::div_mod::lemma_mod_bound(len + page - 1, page);
    vstd::arithmetic::div_mod::lemma_div_pos_is_pos(len + page - 1, page);
    if 0 <= n < count {
        assert(n * page + page <= page * count) by (nonlinear_arith)
            requires
                n + 1 <= count,
                page > 0,
        ;
    }
    if n >= count {
        assert(n * page >= page * count) by (nonlinear_arith)
            requires
                n >= count,
                page > 0,
        ;
    }
}

} // verus!
