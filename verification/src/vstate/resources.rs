//! Allocation of interrupt lines and of guest physical address ranges.

use bitvec::vec::BitVec;
use vm_allocator::{AddressAllocator, AllocPolicy, RangeInclusive};
use vstd::prelude::*;

use crate::arch::layout;

verus! {

/// A growable vector of bits, held in the form of `bitvec`.
#[verifier::external_body]
#[derive(Debug)]
pub struct BitVector {
    inner: BitVec,
}

#[verifier::external_type_specification]
#[verifier::external_body]
pub struct ExAddressAllocator(AddressAllocator);

/// The bits held by a bit vector, in order.
pub uninterp spec fn bits(v: BitVector) -> Seq<bool>;

/// The ranges, both ends included, that an address allocator has handed out.
pub uninterp spec fn allocated_ranges(a: AddressAllocator) -> Set<(int, int)>;

/// The ranges, both ends included, that an address allocator keeps as free nodes.
pub uninterp spec fn free_ranges(a: AddressAllocator) -> Set<(int, int)>;

/// `BitVec::repeat` gives a vector of `len` bits that all hold `bit`. It panics on a length past
/// what the crate can encode, an eighth of the address range.
#[verifier::external_body]
pub(crate) fn bits_repeat(bit: bool, len: usize) -> (v: BitVector)
    requires
        len < usize::MAX / 16,
    ensures
        bits(v) == Seq::new(len as nat, |i: int| bit),
{
    BitVector { inner: BitVec::repeat(bit, len) }
}

/// `BitVec::len` is the number of bits held.
#[verifier::external_body]
pub(crate) fn bits_len(v: &BitVector) -> (len: usize)
    ensures
        len == bits(*v).len(),
        len < usize::MAX / 4,
{
    v.inner.len()
}

/// `BitSlice::get` gives the bit at an index, or nothing past the end.
#[verifier::external_body]
pub(crate) fn bits_get(v: &BitVector, index: usize) -> (r: Option<bool>)
    ensures
        r == (if index < bits(*v).len() {
            Some(bits(*v)[index as int])
        } else {
            None
        }),
{
    v.inner.get(index).as_deref().copied()
}

/// `BitSlice::replace` writes one bit, keeps all others and gives back the former value. It
/// panics on an index past the end.
#[verifier::external_body]
pub(crate) fn bits_replace(v: &mut BitVector, index: usize, value: bool) -> (prev: bool)
    requires
        index < bits(*old(v)).len(),
    ensures
        prev == bits(*old(v))[index as int],
        bits(*final(v)) == bits(*old(v)).update(index as int, value),
{
    v.inner.replace(index, value)
}

/// `BitSlice::first_zero` is the lowest index of an unset bit, or nothing if every bit is set.
#[verifier::external_body]
pub(crate) fn bits_first_zero(v: &BitVector) -> (r: Option<usize>)
    ensures
        match r {
            Some(i) => i < bits(*v).len() && !bits(*v)[i as int] && forall|j: int|
                0 <= j < i ==> #[trigger] bits(*v)[j],
            None => forall|j: int| 0 <= j < bits(*v).len() ==> #[trigger] bits(*v)[j],
        },
{
    v.inner.first_zero()
}

/// Why an allocation was refused.
#[derive(Debug, Clone, Copy, PartialEq, Eq, Structural)]
pub enum AllocatorError {
    /// An address computation left the range of 64-bit values.
    Overflow,
    /// The identifier is not part of the managed range.
    OutOfRange(u32),
    /// The identifier is not allocated, so that it cannot be released.
    NeverAllocated(u32),
    /// Nothing that is free satisfies the request.
    ResourceNotAvailable,
    /// The bounds do not describe a range.
    InvalidRange(u64, u64),
    /// The alignment is not a power of two.
    InvalidAlignment,
    /// The size is zero.
    InvalidSize(u64),
    /// The bookkeeping of the allocator failed.
    Internal,
}

/// The first multiple of `align` at or above `addr`.
pub open spec fn first_aligned(addr: int, align: int) -> int {
    ((addr + align - 1) / align) * align
}

/// Whether an aligned block of `size` bytes fits into a free range when it is placed as low as
/// the alignment allows.
pub open spec fn fits(range: (int, int), size: int, align: int) -> bool {
    first_aligned(range.0, align) + size - 1 <= range.1
}

/// Whether some free range takes an aligned block of `size` bytes.
pub open spec fn has_room(a: AddressAllocator, size: int, align: int) -> bool {
    exists|range: (int, int)| #[trigger]
        free_ranges(a).contains(range) && fits(range, size, align)
}

/// Whether `range` is the lowest free range that takes an aligned block of `size` bytes.
pub open spec fn is_first_fit(a: AddressAllocator, range: (int, int), size: int, align: int) -> bool {
    &&& free_ranges(a).contains(range)
    &&& fits(range, size, align)
    &&& forall|other: (int, int)| #[trigger]
        free_ranges(a).contains(other) && fits(other, size, align) ==> range.0 <= other.0
}

/// Free ranges once the block from `start` to `end` was cut out of the free range `range`.
pub open spec fn cut_out(free: Set<(int, int)>, range: (int, int), start: int, end: int) -> Set<
    (int, int),
> {
    let rest = free.remove(range);
    let below = if start > range.0 {
        rest.insert((range.0, start - 1))
    } else {
        rest
    };
    if end < range.1 {
        below.insert((end + 1, range.1))
    } else {
        below
    }
}

/// Whether an allocator tracks few enough ranges for its tree to take three more. The tree stops
/// growing at a height of fifty, which takes over thirty billion ranges.
pub open spec fn can_grow(a: AddressAllocator) -> bool {
    &&& allocated_ranges(a).finite()
    &&& free_ranges(a).finite()
    &&& allocated_ranges(a).len() + free_ranges(a).len() < 0x4_0000_0000
}

/// Whether `align` is a power of two.
pub open spec fn is_power_of_two(align: u64) -> bool {
    align != 0 && align & (align - 1) as u64 == 0
}

/// `AddressAllocator::new` manages `size` bytes from `base` on, all of them free. It refuses an
/// empty range and one that ends past the 64-bit range.
#[verifier::external_body]
pub(crate) fn address_allocator_new(base: u64, size: u64) -> (r: Option<AddressAllocator>)
    ensures
        r is Some == (size > 0 && base + size <= 0x1_0000_0000_0000_0000),
        r matches Some(a) ==> is_fresh(a, base, size),
{
    AddressAllocator::new(base, size).ok()
}

/// Whether two address allocators track the same ranges.
pub open spec fn same_ranges(a: AddressAllocator, b: AddressAllocator) -> bool {
    &&& allocated_ranges(a) == allocated_ranges(b)
    &&& free_ranges(a) == free_ranges(b)
}

/// Whether a block that fits can be handed out: the tree can grow, and no block ends at the last
/// 64-bit address.
pub open spec fn can_hand_out(a: AddressAllocator) -> bool {
    &&& can_grow(a)
    &&& forall|range: (int, int)| #[trigger] free_ranges(a).contains(range) ==> range.1 < u64::MAX
}

/// Whether `after` is `before` with an aligned block of `size` bytes from `start` on cut out of
/// the lowest free range that takes it. The block ends before the last 64-bit address.
pub open spec fn placed_first(
    before: AddressAllocator,
    after: AddressAllocator,
    start: int,
    size: int,
    align: int,
) -> bool {
    &&& start + size <= u64::MAX
    &&& exists|range: (int, int)|
        {
            &&& #[trigger] is_first_fit(before, range, size, align)
            &&& start == first_aligned(range.0, align)
            &&& free_ranges(after) == cut_out(free_ranges(before), range, start, start + size - 1)
        }
    &&& allocated_ranges(after) == allocated_ranges(before).insert((start, start + size - 1))
}

/// `AddressAllocator::allocate` with the policy `FirstMatch` cuts an aligned block out of the
/// lowest free range that takes one, and gives back the first address of the block.
///
/// It refuses an empty block and an alignment that is not a power of two, and otherwise fails
/// where no free range takes the block. On these failures nothing changes. A block that would
/// end at the last 64-bit address is refused too. Nothing is said of a tree that cannot grow.
#[verifier::external_body]
pub(crate) fn address_allocate_first(a: &mut AddressAllocator, size: u64, align: u64) -> (r: Result<
    u64,
    AllocatorError,
>)
    ensures
        size == 0 ==> r is Err && r->Err_0 == AllocatorError::InvalidSize(0) && same_ranges(*old(a), *final(a)),
        size != 0 && !is_power_of_two(align) ==> r is Err && r->Err_0 == AllocatorError::InvalidAlignment
            && same_ranges(*old(a), *final(a)),
        size != 0 && is_power_of_two(align) && !has_room(*old(a), size as int, align as int)
            ==> r is Err && r->Err_0 == AllocatorError::ResourceNotAvailable && same_ranges(*old(a), *final(a)),
        size != 0 && is_power_of_two(align) && has_room(*old(a), size as int, align as int)
            && can_hand_out(*old(a)) ==> r is Ok,
        r matches Ok(start) ==> size != 0 && is_power_of_two(align) && placed_first(
            *old(a),
            *final(a),
            start as int,
            size as int,
            align as int,
        ),
{
    match a.allocate(size, align, AllocPolicy::FirstMatch) {
        Ok(range) => Ok(range.start()),
        Err(vm_allocator::Error::InvalidSize(size)) => Err(AllocatorError::InvalidSize(size)),
        Err(vm_allocator::Error::InvalidAlignment) => Err(AllocatorError::InvalidAlignment),
        Err(vm_allocator::Error::ResourceNotAvailable) => Err(AllocatorError::ResourceNotAvailable),
        Err(vm_allocator::Error::Overflow) => Err(AllocatorError::Overflow),
        Err(_) => Err(AllocatorError::Internal),
    }
}

/// The last multiple of `align` at or below `addr`.
pub open spec fn last_aligned(addr: int, align: int) -> int {
    (addr / align) * align
}

/// Whether an aligned block of `size` bytes fits into a free range when it is placed as high as
/// the alignment allows. A block that fills the range from the address zero on does not.
pub open spec fn fits_high(range: (int, int), size: int, align: int) -> bool {
    size <= range.1 && range.0 <= last_aligned(range.1 - size + 1, align)
}

/// Whether some free range takes an aligned block of `size` bytes that is placed high.
pub open spec fn has_room_high(a: AddressAllocator, size: int, align: int) -> bool {
    exists|range: (int, int)| #[trigger]
        free_ranges(a).contains(range) && fits_high(range, size, align)
}

/// Whether `range` is the highest free range that takes an aligned block of `size` bytes.
pub open spec fn is_last_fit(a: AddressAllocator, range: (int, int), size: int, align: int) -> bool {
    &&& free_ranges(a).contains(range)
    &&& fits_high(range, size, align)
    &&& forall|other: (int, int)| #[trigger]
        free_ranges(a).contains(other) && fits_high(other, size, align) ==> other.0 <= range.0
}

/// Whether `after` is `before` with an aligned block of `size` bytes from `start` on cut out of
/// the highest free range that takes it. The block ends before the last 64-bit address.
pub open spec fn placed_last(
    before: AddressAllocator,
    after: AddressAllocator,
    start: int,
    size: int,
    align: int,
) -> bool {
    &&& start + size <= u64::MAX
    &&& exists|range: (int, int)|
        {
            &&& #[trigger] is_last_fit(before, range, size, align)
            &&& start == last_aligned(range.1 - size + 1, align)
            &&& free_ranges(after) == cut_out(free_ranges(before), range, start, start + size - 1)
        }
    &&& allocated_ranges(after) == allocated_ranges(before).insert((start, start + size - 1))
}

/// `AddressAllocator::allocate` with the policy `LastMatch` cuts an aligned block out of the
/// highest free range that takes one, as high as the alignment allows, and gives back the first
/// address of the block.
///
/// It refuses an empty block and an alignment that is not a power of two, and otherwise fails
/// where no free range takes the block. On these failures nothing changes. A block that would
/// end at the last 64-bit address is refused too. Nothing is said of a tree that cannot grow.
#[verifier::external_body]
pub(crate) fn address_allocate_last(a: &mut AddressAllocator, size: u64, align: u64) -> (r: Result<
    u64,
    AllocatorError,
>)
    ensures
        size == 0 ==> r is Err && r->Err_0 == AllocatorError::InvalidSize(0) && same_ranges(*old(a), *final(a)),
        size != 0 && !is_power_of_two(align) ==> r is Err && r->Err_0 == AllocatorError::InvalidAlignment
            && same_ranges(*old(a), *final(a)),
        size != 0 && is_power_of_two(align) && !has_room_high(*old(a), size as int, align as int)
            ==> r is Err && r->Err_0 == AllocatorError::ResourceNotAvailable && same_ranges(*old(a), *final(a)),
        size != 0 && is_power_of_two(align) && has_room_high(*old(a), size as int, align as int)
            && can_hand_out(*old(a)) ==> r is Ok,
        r matches Ok(start) ==> size != 0 && is_power_of_two(align) && placed_last(
            *old(a),
            *final(a),
            start as int,
            size as int,
            align as int,
        ),
{
    match a.allocate(size, align, AllocPolicy::LastMatch) {
        Ok(range) => Ok(range.start()),
        Err(vm_allocator::Error::InvalidSize(size)) => Err(AllocatorError::InvalidSize(size)),
        Err(vm_allocator::Error::InvalidAlignment) => Err(AllocatorError::InvalidAlignment),
        Err(vm_allocator::Error::ResourceNotAvailable) => Err(AllocatorError::ResourceNotAvailable),
        Err(vm_allocator::Error::Overflow) => Err(AllocatorError::Overflow),
        Err(_) => Err(AllocatorError::Internal),
    }
}

/// Whether an allocator tracks any range at all.
pub open spec fn tracks_some(a: AddressAllocator) -> bool {
    exists|range: (int, int)|
        #![trigger allocated_ranges(a).contains(range)]
        #![trigger free_ranges(a).contains(range)]
        allocated_ranges(a).contains(range) || free_ranges(a).contains(range)
}

/// `AddressAllocator::free` gives a range back that was handed out before, and answers whether
/// it did. A range that the allocator does not track is refused without a change, as long as the
/// allocator tracks any range. One that tracks none takes the range in as a free one; of that only
/// the effect on what is handed out is said.
///
/// The claim on success leaves out a range that starts at one, or that ends at one of the two
/// last 64-bit addresses: there the crate fails after it removed the range. Which free ranges are
/// merged is not said.
#[verifier::external_body]
pub(crate) fn address_free(a: &mut AddressAllocator, start: u64, end: u64) -> (freed: bool)
    requires
        start <= end,
        start != 0 || end != u64::MAX,
    ensures
        tracks_some(*old(a)) && !allocated_ranges(*old(a)).contains((start as int, end as int))
            && !free_ranges(*old(a)).contains((start as int, end as int)) ==> !freed && allocated_ranges(*final(a))
            == allocated_ranges(*old(a)) && free_ranges(*final(a)) == free_ranges(*old(a)),
        allocated_ranges(*old(a)).contains((start as int, end as int)) && start != 1 && end
            < u64::MAX - 1 && can_grow(*old(a)) ==> freed,
        freed ==> allocated_ranges(*final(a)) == allocated_ranges(*old(a)).remove(
            (start as int, end as int),
        ),
{
    match RangeInclusive::new(start, end) {
        Ok(range) => a.free(&range).is_ok(),
        Err(_) => false,
    }
}

/// The number of unset flags.
pub open spec fn count_free(taken: Seq<bool>) -> nat
    decreases taken.len(),
{
    if taken.len() == 0 {
        0
    } else {
        count_free(taken.drop_last()) + if taken.last() {
            0nat
        } else {
            1nat
        }
    }
}

/// Setting one unset flag leaves one unset flag less.
proof fn lemma_count_free_update(taken: Seq<bool>, i: int)
    requires
        0 <= i < taken.len(),
        !taken[i],
    ensures
        count_free(taken.update(i, true)) + 1 == count_free(taken),
    decreases taken.len(),
{
    let new = taken.update(i, true);
    if i == taken.len() - 1 {
        assert(new.drop_last() =~= taken.drop_last());
    } else {
        assert(new.drop_last() =~= taken.drop_last().update(i, true));
        lemma_count_free_update(taken.drop_last(), i);
    }
}

/// No flag is unset exactly when there is nothing to count.
proof fn lemma_count_free_zero(taken: Seq<bool>)
    ensures
        count_free(taken) == 0 <==> (forall|i: int| 0 <= i < taken.len() ==> #[trigger] taken[i]),
    decreases taken.len(),
{
    if taken.len() > 0 {
        lemma_count_free_zero(taken.drop_last());
        if count_free(taken) == 0 {
            assert forall|i: int| 0 <= i < taken.len() implies #[trigger] taken[i] by {
                if i < taken.len() - 1 {
                    assert(taken.drop_last()[i] == taken[i]);
                }
            }
        } else if taken.last() {
            let i = choose|i: int|
                0 <= i < taken.drop_last().len() && !#[trigger] taken.drop_last()[i];
            assert(!taken[i]);
        } else {
            assert(!taken[taken.len() - 1]);
        }
    }
}

/// An allocator of unique identifiers in a given interval.
#[derive(Debug)]
pub struct IdAllocator {
    // Beginning of the range of managed identifiers.
    range_base: u32,
    // One bit per identifier in the managed range. A set bit means that it is allocated.
    allocated: BitVector,
}

impl IdAllocator {
    /// The lowest managed identifier.
    pub closed spec fn first_id(self) -> int {
        self.range_base as int
    }

    /// For each managed identifier, in order, whether it is allocated.
    pub closed spec fn taken(self) -> Seq<bool> {
        bits(self.allocated)
    }

    /// The managed range is not empty and holds 32-bit identifiers only.
    pub open spec fn wf(self) -> bool {
        &&& self.taken().len() > 0
        &&& 0 <= self.first_id()
        &&& self.first_id() + self.taken().len() <= 0x1_0000_0000
    }

    /// Whether `id` belongs to the managed range.
    pub open spec fn manages(self, id: int) -> bool {
        self.first_id() <= id < self.first_id() + self.taken().len()
    }

    /// Whether `id` is allocated.
    pub open spec fn has(self, id: int) -> bool {
        self.manages(id) && self.taken()[id - self.first_id()]
    }

    /// Creates an allocator of the identifiers from `range_base` to `range_end`, both included.
    pub fn new(range_base: u32, range_end: u32) -> (r: Result<IdAllocator, AllocatorError>)
        ensures
            range_end < range_base ==> r == Err::<IdAllocator, _>(
                AllocatorError::InvalidRange(range_base as u64, range_end as u64),
            ),
            range_base <= range_end && range_end - range_base + 1 < usize::MAX / 16 ==> r is Ok,
            range_base <= range_end && r is Err ==> r == Err::<IdAllocator, _>(
                AllocatorError::Overflow,
            ),
            r matches Ok(ids) ==> {
                &&& ids.wf()
                &&& ids.first_id() == range_base
                &&& ids.taken() == Seq::new((range_end - range_base + 1) as nat, |i: int| false)
            },
    {
        if range_end < range_base {
            return Err(AllocatorError::InvalidRange(range_base as u64, range_end as u64));
        }
        let num_ids: u64 = range_end as u64 - range_base as u64 + 1;
        if num_ids >= (usize::MAX / 16) as u64 {
            return Err(AllocatorError::Overflow);
        }
        let allocated = bits_repeat(false, num_ids as usize);
        Ok(IdAllocator { range_base, allocated })
    }

    // Maps `id` to its index in the bitmap.
    fn index_for(&self, id: u32) -> (r: Result<usize, AllocatorError>)
        requires
            self.wf(),
        ensures
            r == (if self.manages(id as int) {
                Ok::<usize, AllocatorError>((id - self.first_id()) as usize)
            } else {
                Err(AllocatorError::OutOfRange(id))
            }),
            r matches Ok(index) ==> index < self.taken().len() && index == id - self.first_id(),
    {
        if id < self.range_base {
            return Err(AllocatorError::OutOfRange(id));
        }
        let index: usize = (id - self.range_base) as usize;
        match bits_get(&self.allocated, index) {
            Some(_) => Ok(index),
            None => Err(AllocatorError::OutOfRange(id)),
        }
    }

    // Maps an index in the bitmap to the identifier at that position.
    fn id_for_index(&self, index: usize) -> (r: Result<u32, AllocatorError>)
        ensures
            r == (if self.first_id() + index <= u32::MAX {
                Ok::<u32, AllocatorError>((self.first_id() + index) as u32)
            } else {
                Err(AllocatorError::Overflow)
            }),
    {
        if index > u32::MAX as usize {
            return Err(AllocatorError::Overflow);
        }
        match self.range_base.checked_add(index as u32) {
            Some(id) => Ok(id),
            None => Err(AllocatorError::Overflow),
        }
    }

    /// Allocates the lowest identifier that is free.
    pub fn allocate_id(&mut self) -> (r: Result<u32, AllocatorError>)
        requires
            old(self).wf(),
        ensures
            final(self).wf(),
            final(self).first_id() == old(self).first_id(),
            match r {
                Ok(id) => {
                    &&& old(self).manages(id as int)
                    &&& !old(self).has(id as int)
                    &&& forall|lower: int|
                        old(self).first_id() <= lower < id ==> #[trigger] old(self).has(lower)
                    &&& final(self).taken() == old(self).taken().update(
                        id - old(self).first_id(),
                        true,
                    )
                },
                Err(e) => {
                    &&& e == AllocatorError::ResourceNotAvailable
                    &&& forall|id: int| old(self).manages(id) ==> #[trigger] old(self).has(id)
                    &&& final(self).taken() == old(self).taken()
                },
            },
    {
        match bits_first_zero(&self.allocated) {
            Some(index) => {
                bits_replace(&mut self.allocated, index, true);
                self.id_for_index(index)
            },
            None => Err(AllocatorError::ResourceNotAvailable),
        }
    }

    /// Allocates the given identifier.
    pub fn allocate_id_at(&mut self, id: u32) -> (r: Result<u32, AllocatorError>)
        requires
            old(self).wf(),
        ensures
            final(self).wf(),
            final(self).first_id() == old(self).first_id(),
            r == (if !old(self).manages(id as int) {
                Err::<u32, AllocatorError>(AllocatorError::OutOfRange(id))
            } else if old(self).has(id as int) {
                Err(AllocatorError::ResourceNotAvailable)
            } else {
                Ok(id)
            }),
            final(self).taken() == (if r is Ok {
                old(self).taken().update(id - old(self).first_id(), true)
            } else {
                old(self).taken()
            }),
    {
        let index: usize = match self.index_for(id) {
            Ok(index) => index,
            Err(e) => {
                return Err(e);
            },
        };
        match bits_get(&self.allocated, index) {
            Some(false) => {
                bits_replace(&mut self.allocated, index, true);
                Ok(id)
            },
            _ => Err(AllocatorError::ResourceNotAvailable),
        }
    }

    /// Whether `id` is allocated. An identifier outside the managed range never is.
    pub fn is_allocated(&self, id: u32) -> (r: bool)
        requires
            self.wf(),
        ensures
            r == self.has(id as int),
    {
        match self.index_for(id) {
            Ok(index) => match bits_get(&self.allocated, index) {
                Some(bit) => bit,
                None => false,
            },
            Err(_) => false,
        }
    }

    /// Gives an identifier back.
    pub fn free_id(&mut self, id: u32) -> (r: Result<u32, AllocatorError>)
        requires
            old(self).wf(),
        ensures
            final(self).wf(),
            final(self).first_id() == old(self).first_id(),
            r == (if !old(self).manages(id as int) {
                Err::<u32, AllocatorError>(AllocatorError::OutOfRange(id))
            } else if old(self).has(id as int) {
                Ok(id)
            } else {
                Err(AllocatorError::NeverAllocated(id))
            }),
            final(self).taken() == (if r is Ok {
                old(self).taken().update(id - old(self).first_id(), false)
            } else {
                old(self).taken()
            }),
    {
        let index: usize = match self.index_for(id) {
            Ok(index) => index,
            Err(e) => {
                return Err(e);
            },
        };
        match bits_get(&self.allocated, index) {
            Some(true) => {
                bits_replace(&mut self.allocated, index, false);
                Ok(id)
            },
            _ => Err(AllocatorError::NeverAllocated(id)),
        }
    }
}

/// Whether `ids` are the lowest identifiers that were free in `before`, in ascending order.
pub open spec fn lowest_free(before: IdAllocator, ids: Seq<u32>) -> bool {
    &&& forall|i: int| 0 <= i < ids.len() ==> before.manages(#[trigger] ids[i] as int)
        && !before.has(ids[i] as int)
    &&& forall|i: int, j: int| 0 <= i < j < ids.len() ==> #[trigger] ids[i] < #[trigger] ids[j]
    &&& forall|id: int|
        ids.len() > 0 && before.first_id() <= id <= ids.last() && !#[trigger] before.has(id)
            ==> exists|i: int| 0 <= i < ids.len() && #[trigger] ids[i] == id
}

/// Whether `after` differs from `before` by the allocation of `ids` alone.
pub open spec fn allocated_exactly(before: IdAllocator, after: IdAllocator, ids: Seq<u32>) -> bool {
    &&& after.first_id() == before.first_id()
    &&& after.taken().len() == before.taken().len()
    &&& forall|id: int|
        before.manages(id) ==> (#[trigger] after.has(id) <==> before.has(id) || exists|i: int|
            0 <= i < ids.len() && #[trigger] ids[i] == id)
}

// Allocates `count` identifiers, or none at all.
fn allocate_many_ids(id_allocator: &mut IdAllocator, count: u32) -> (r: Result<
    Vec<u32>,
    AllocatorError,
>)
    requires
        old(id_allocator).wf(),
    ensures
        final(id_allocator).wf(),
        r is Ok <==> count <= count_free(old(id_allocator).taken()),
        match r {
            Ok(ids) => {
                &&& ids@.len() == count
                &&& lowest_free(*old(id_allocator), ids@)
                &&& allocated_exactly(*old(id_allocator), *final(id_allocator), ids@)
            },
            Err(e) => {
                &&& e == AllocatorError::ResourceNotAvailable
                &&& final(id_allocator).first_id() == old(id_allocator).first_id()
                &&& final(id_allocator).taken() == old(id_allocator).taken()
            },
        },
{
    let ghost before = *id_allocator;
    let mut ids: Vec<u32> = Vec::with_capacity(count as usize);
    let mut done: u32 = 0;
    while done < count
        invariant
            done <= count,
            ids@.len() == done,
            before == *old(id_allocator),
            before.wf(),
            id_allocator.wf(),
            lowest_free(before, ids@),
            allocated_exactly(before, *id_allocator, ids@),
            count_free(id_allocator.taken()) + done == count_free(before.taken()),
        decreases count - done,
    {
        let ghost current = *id_allocator;
        match id_allocator.allocate_id() {
            Ok(id) => {
                let ghost former = ids@;
                ids.push(id);
                proof {
                    lemma_count_free_update(current.taken(), id - current.first_id());
                    assert(current.manages(id as int));
                    assert(!current.has(id as int));
                    assert(!before.has(id as int));
                    assert forall|i: int| 0 <= i < former.len() implies #[trigger] former[i]
                        < id by {
                        assert(ids@[i] == former[i]);
                        assert(current.has(former[i] as int));
                        if former[i] >= id {
                            if former[i] == id {
                                assert(false);
                            }
                            assert(former.last() >= former[i]);
                            assert(before.first_id() <= id as int <= former.last());
                            let k = choose|k: int|
                                0 <= k < former.len() && #[trigger] former[k] == id;
                            assert(current.has(id as int));
                            assert(false);
                        }
                    }
                    assert forall|i: int, j: int| 0 <= i < j < ids@.len() implies #[trigger] ids@[i]
                        < #[trigger] ids@[j] by {
                        if j < former.len() {
                            assert(former[i] < former[j]);
                        } else {
                            assert(former[i] < id);
                        }
                    }
                    assert forall|x: int|
                        before.first_id() <= x <= ids@.last() && !#[trigger] before.has(
                            x,
                        ) implies exists|i: int| 0 <= i < ids@.len() && #[trigger] ids@[i] == x by {
                        if x == id {
                            assert(ids@[former.len() as int] == x);
                        } else {
                            assert(current.has(x));
                            let k = choose|k: int| 0 <= k < former.len() && #[trigger] former[k] == x;
                            assert(ids@[k] == x);
                        }
                    }
                    let after = *id_allocator;
                    assert forall|x: int| before.manages(x) implies (#[trigger] after.has(x)
                        <==> before.has(x) || exists|i: int|
                        0 <= i < ids@.len() && #[trigger] ids@[i] == x) by {
                        if x == id {
                            assert(ids@[former.len() as int] == x);
                            assert(after.has(x));
                        } else {
                            assert(after.has(x) == current.has(x));
                            if exists|i: int| 0 <= i < former.len() && #[trigger] former[i] == x {
                                let k = choose|k: int|
                                    0 <= k < former.len() && #[trigger] former[k] == x;
                                assert(ids@[k] == x);
                            }
                            if exists|i: int| 0 <= i < ids@.len() && #[trigger] ids@[i] == x {
                                let k = choose|k: int|
                                    0 <= k < ids@.len() && #[trigger] ids@[k] == x;
                                assert(former[k] == x);
                            }
                        }
                    }
                }
            },
            Err(e) => {
                proof {
                    assert forall|i: int| 0 <= i < current.taken().len() implies #[trigger]
                    current.taken()[i] by {
                        assert(current.has(i + current.first_id()));
                    }
                    lemma_count_free_zero(current.taken());
                    let after = *id_allocator;
                    assert forall|x: int| before.manages(x) implies (#[trigger] after.has(x)
                        <==> before.has(x) || exists|i: int|
                        0 <= i < ids@.len() && #[trigger] ids@[i] == x) by {
                        assert(after.has(x) == current.has(x));
                    }
                }
                free_all(id_allocator, &ids, Ghost(before));
                return Err(e);
            },
        }
        done = done + 1;
    }
    Ok(ids)
}

// Gives back identifiers that were all allocated on top of `before`.
fn free_all(id_allocator: &mut IdAllocator, ids: &Vec<u32>, Ghost(before): Ghost<IdAllocator>)
    requires
        old(id_allocator).wf(),
        lowest_free(before, ids@),
        allocated_exactly(before, *old(id_allocator), ids@),
    ensures
        final(id_allocator).wf(),
        final(id_allocator).first_id() == before.first_id(),
        final(id_allocator).taken() == before.taken(),
{
    let mut n: usize = 0;
    while n < ids.len()
        invariant
            n <= ids@.len(),
            id_allocator.wf(),
            lowest_free(before, ids@),
            id_allocator.first_id() == before.first_id(),
            id_allocator.taken().len() == before.taken().len(),
            forall|id: int|
                before.manages(id) ==> (#[trigger] id_allocator.has(id) <==> before.has(id)
                    || exists|i: int| n <= i < ids@.len() && #[trigger] ids@[i] == id),
        decreases ids.len() - n,
    {
        let ghost current = *id_allocator;
        let id: u32 = ids[n];
        assert(current.has(id as int));
        let _ = id_allocator.free_id(id);
        proof {
            let after = *id_allocator;
            assert forall|x: int| before.manages(x) implies (#[trigger] after.has(x) <==> before.has(
                x,
            ) || exists|i: int| n < i < ids@.len() && #[trigger] ids@[i] == x) by {
                if x == id {
                    assert(!after.has(x));
                    assert(!before.has(x));
                } else {
                    assert(after.has(x) == current.has(x));
                    if exists|i: int| n <= i < ids@.len() && #[trigger] ids@[i] == x {
                        let k = choose|k: int| n <= k < ids@.len() && #[trigger] ids@[k] == x;
                        assert(k != n);
                    }
                }
            }
        }
        n = n + 1;
    }
    proof {
        assert forall|i: int| 0 <= i < before.taken().len() implies #[trigger]
        id_allocator.taken()[i] == before.taken()[i] by {
            assert(id_allocator.has(i + before.first_id()) == before.has(i + before.first_id()));
        }
        assert(id_allocator.taken() =~= before.taken());
    }
}

/// A manager of interrupt lines and of guest memory for devices.
#[derive(Debug)]
pub struct ResourceAllocator {
    /// Interrupt lines of legacy devices.
    pub gsi_legacy_allocator: IdAllocator,
    /// Message signalled interrupts.
    pub gsi_msi_allocator: IdAllocator,
    /// Memory in the 32-bit MMIO address space.
    pub mmio32_memory: AddressAllocator,
    /// Memory in the 64-bit MMIO address space.
    pub mmio64_memory: AddressAllocator,
    /// Memory after the 64-bit MMIO address space.
    pub past_mmio64_memory: AddressAllocator,
    /// Memory for system data.
    pub system_memory: AddressAllocator,
}

/// Whether an address allocator manages `size` bytes from `base` on and has handed out none.
pub open spec fn is_fresh(a: AddressAllocator, base: u64, size: u64) -> bool {
    &&& allocated_ranges(a) == Set::<(int, int)>::empty()
    &&& free_ranges(a) == Set::<(int, int)>::empty().insert((base as int, base + size - 1))
}

impl ResourceAllocator {
    /// Both allocators of interrupt lines are well formed and start where their lines start.
    pub open spec fn wf(self) -> bool {
        &&& self.gsi_legacy_allocator.wf()
        &&& self.gsi_legacy_allocator.first_id() == layout::GSI_LEGACY_START
        &&& self.gsi_msi_allocator.wf()
        &&& self.gsi_msi_allocator.first_id() == layout::GSI_MSI_START
    }

    /// Whether nothing was handed out.
    pub open spec fn is_new(self) -> bool {
        &&& self.wf()
        &&& self.gsi_legacy_allocator.taken() == Seq::new(19, |i: int| false)
        &&& self.gsi_msi_allocator.taken() == Seq::new(4072, |i: int| false)
        &&& is_fresh(
            self.mmio32_memory,
            layout::MEM_32BIT_DEVICES_START,
            layout::MEM_32BIT_DEVICES_SIZE,
        )
        &&& is_fresh(
            self.mmio64_memory,
            layout::MEM_64BIT_DEVICES_START,
            layout::MEM_64BIT_DEVICES_SIZE,
        )
        &&& is_fresh(
            self.past_mmio64_memory,
            layout::FIRST_ADDR_PAST_64BITS_MMIO,
            layout::PAST_64BITS_MMIO_SIZE,
        )
        &&& is_fresh(self.system_memory, layout::SYSTEM_MEM_START, layout::SYSTEM_MEM_SIZE)
    }

    /// Creates an allocator that has handed out nothing.
    pub fn new() -> (r: ResourceAllocator)
        ensures
            r.is_new(),
    {
        let gsi_legacy_allocator = IdAllocator::new(
            layout::GSI_LEGACY_START,
            layout::GSI_LEGACY_END,
        ).unwrap();
        let gsi_msi_allocator = IdAllocator::new(
            layout::GSI_MSI_START,
            layout::GSI_MSI_END,
        ).unwrap();
        ResourceAllocator {
            gsi_legacy_allocator,
            gsi_msi_allocator,
            mmio32_memory: address_allocator_new(
                layout::MEM_32BIT_DEVICES_START,
                layout::MEM_32BIT_DEVICES_SIZE,
            ).unwrap(),
            mmio64_memory: address_allocator_new(
                layout::MEM_64BIT_DEVICES_START,
                layout::MEM_64BIT_DEVICES_SIZE,
            ).unwrap(),
            past_mmio64_memory: address_allocator_new(
                layout::FIRST_ADDR_PAST_64BITS_MMIO,
                layout::PAST_64BITS_MMIO_SIZE,
            ).unwrap(),
            system_memory: address_allocator_new(
                layout::SYSTEM_MEM_START,
                layout::SYSTEM_MEM_SIZE,
            ).unwrap(),
        }
    }

    /// Allocates a number of legacy interrupt lines, or none at all.
    pub fn allocate_gsi_legacy(&mut self, gsi_count: u32) -> (r: Result<Vec<u32>, AllocatorError>)
        requires
            old(self).wf(),
        ensures
            final(self).wf(),
            r is Ok <==> gsi_count <= count_free(old(self).gsi_legacy_allocator.taken()),
            match r {
                Ok(ids) => {
                    &&& ids@.len() == gsi_count
                    &&& lowest_free(old(self).gsi_legacy_allocator, ids@)
                    &&& allocated_exactly(
                        old(self).gsi_legacy_allocator,
                        final(self).gsi_legacy_allocator,
                        ids@,
                    )
                },
                Err(e) => {
                    &&& e == AllocatorError::ResourceNotAvailable
                    &&& final(self).gsi_legacy_allocator.first_id() == old(
                        self,
                    ).gsi_legacy_allocator.first_id()
                    &&& final(self).gsi_legacy_allocator.taken() == old(
                        self,
                    ).gsi_legacy_allocator.taken()
                },
            },
            final(self).gsi_msi_allocator == old(self).gsi_msi_allocator,
            final(self).mmio32_memory == old(self).mmio32_memory,
            final(self).mmio64_memory == old(self).mmio64_memory,
            final(self).past_mmio64_memory == old(self).past_mmio64_memory,
            final(self).system_memory == old(self).system_memory,
    {
        allocate_many_ids(&mut self.gsi_legacy_allocator, gsi_count)
    }

    /// Allocates a number of message signalled interrupts, or none at all.
    pub fn allocate_gsi_msi(&mut self, gsi_count: u32) -> (r: Result<Vec<u32>, AllocatorError>)
        requires
            old(self).wf(),
        ensures
            final(self).wf(),
            r is Ok <==> gsi_count <= count_free(old(self).gsi_msi_allocator.taken()),
            match r {
                Ok(ids) => {
                    &&& ids@.len() == gsi_count
                    &&& lowest_free(old(self).gsi_msi_allocator, ids@)
                    &&& allocated_exactly(
                        old(self).gsi_msi_allocator,
                        final(self).gsi_msi_allocator,
                        ids@,
                    )
                },
                Err(e) => {
                    &&& e == AllocatorError::ResourceNotAvailable
                    &&& final(self).gsi_msi_allocator.first_id() == old(
                        self,
                    ).gsi_msi_allocator.first_id()
                    &&& final(self).gsi_msi_allocator.taken() == old(self).gsi_msi_allocator.taken()
                },
            },
            final(self).gsi_legacy_allocator == old(self).gsi_legacy_allocator,
            final(self).mmio32_memory == old(self).mmio32_memory,
            final(self).mmio64_memory == old(self).mmio64_memory,
            final(self).past_mmio64_memory == old(self).past_mmio64_memory,
            final(self).system_memory == old(self).system_memory,
    {
        allocate_many_ids(&mut self.gsi_msi_allocator, gsi_count)
    }
}

impl Default for ResourceAllocator {
    fn default() -> (r: ResourceAllocator)
        ensures
            r.is_new(),
    {
        ResourceAllocator::new()
    }
}

/// An identifier that was free is free again after it was allocated and given back.
pub proof fn law_free_undoes_allocate(taken: Seq<bool>, index: int)
    requires
        0 <= index < taken.len(),
        !taken[index],
    ensures
        taken.update(index, true).update(index, false) == taken,
        count_free(taken.update(index, true)) + 1 == count_free(taken),
{
    assert(taken.update(index, true).update(index, false) =~= taken);
    lemma_count_free_update(taken, index);
}

/// Whether two ranges, both ends included, have no address in common.
pub open spec fn disjoint(a: (int, int), b: (int, int)) -> bool {
    a.1 < b.0 || b.1 < a.0
}

/// Whether an allocator tracks a range, handed out or free.
pub open spec fn tracks(a: AddressAllocator, range: (int, int)) -> bool {
    allocated_ranges(a).contains(range) || free_ranges(a).contains(range)
}

/// Whether the ranges of an allocator do not overlap: no two free ones, no two that were handed
/// out, and none of one sort with one of the other.
pub open spec fn apart(a: AddressAllocator) -> bool {
    &&& forall|range: (int, int)| #[trigger] tracks(a, range) ==> range.0 <= range.1
    &&& forall|x: (int, int), y: (int, int)| #[trigger]
        tracks(a, x) && #[trigger] tracks(a, y) && x != y ==> disjoint(x, y)
    &&& forall|range: (int, int)| #[trigger]
        allocated_ranges(a).contains(range) ==> !free_ranges(a).contains(range)
}

/// The ranges of an allocator that has handed out nothing do not overlap.
pub proof fn law_fresh_is_apart(a: AddressAllocator, base: u64, size: u64)
    requires
        size > 0,
        is_fresh(a, base, size),
    ensures
        apart(a),
{
}

proof fn lemma_first_aligned(addr: int, align: int)
    requires
        align > 0,
    ensures
        first_aligned(addr, align) >= addr,
        first_aligned(addr, align) % align == 0,
{
    vstd::arithmetic::div_mod::lemma_fundamental_div_mod(addr + align - 1, align);
    vstd::arithmetic::div_mod::lemma_mod_bound(addr + align - 1, align);
    vstd::arithmetic::mul::lemma_mul_is_commutative(align, (addr + align - 1) / align);
    vstd::arithmetic::div_mod::lemma_mod_multiples_basic((addr + align - 1) / align, align);
}

/// A block that is handed out is aligned, lies inside of a range that was free, and overlaps
/// nothing that was handed out before; and the ranges still do not overlap.
pub proof fn law_blocks_never_overlap(
    before: AddressAllocator,
    after: AddressAllocator,
    start: int,
    size: int,
    align: int,
)
    requires
        apart(before),
        size > 0,
        align > 0,
        placed_first(before, after, start, size, align),
    ensures
        start % align == 0,
        exists|range: (int, int)| #[trigger]
            free_ranges(before).contains(range) && range.0 <= start && start + size - 1 <= range.1,
        forall|other: (int, int)| #[trigger]
            allocated_ranges(before).contains(other) ==> disjoint(other, (start, start + size - 1)),
        apart(after),
{
    let block = (start, start + size - 1);
    let range = choose|range: (int, int)|
        {
            &&& #[trigger] is_first_fit(before, range, size, align)
            &&& start == first_aligned(range.0, align)
            &&& free_ranges(after) == cut_out(free_ranges(before), range, start, start + size - 1)
        };
    lemma_first_aligned(range.0, align);
    assert(tracks(before, range));
    assert(free_ranges(before).contains(range));
    assert forall|other: (int, int)| #[trigger]
        allocated_ranges(before).contains(other) implies disjoint(other, block) by {
        assert(tracks(before, other));
    }
    // A range is the block, a rest of the range that it was cut out of, or one from before.
    assert forall|x: (int, int)| #[trigger] tracks(after, x) implies x.0 <= x.1 && (x == block || (
    x.0 == range.0 && x.1 == start - 1 && free_ranges(after).contains(x)) || (x.0 == start + size
        && x.1 == range.1 && free_ranges(after).contains(x)) || (tracks(before, x) && x != range))
        by {
        if allocated_ranges(after).contains(x) && x != block {
            assert(allocated_ranges(before).contains(x));
            assert(tracks(before, x));
        }
        if free_ranges(after).contains(x) {
            if free_ranges(before).contains(x) && x != range {
                assert(tracks(before, x));
            }
        }
    }
    assert forall|x: (int, int), y: (int, int)| #[trigger]
        tracks(after, x) && #[trigger] tracks(after, y) && x != y implies disjoint(x, y) by {
        if tracks(before, x) && x != range {
            assert(disjoint(x, range));
        }
        if tracks(before, y) && y != range {
            assert(disjoint(y, range));
        }
    }
    assert forall|x: (int, int)| #[trigger] allocated_ranges(after).contains(x) implies !free_ranges(
        after,
    ).contains(x) by {
        assert(tracks(after, x));
        if x != block {
            assert(allocated_ranges(before).contains(x));
            assert(tracks(before, x));
            assert(disjoint(x, range));
            assert(!free_ranges(before).contains(x));
        } else if free_ranges(after).contains(x) && free_ranges(before).contains(x) && x != range {
            assert(tracks(before, x));
            assert(disjoint(x, range));
        }
    }
}

/// A range that is given back is not handed out any more.
pub proof fn law_freed_is_not_handed_out(
    before: AddressAllocator,
    after: AddressAllocator,
    range: (int, int),
    other: (int, int),
)
    requires
        allocated_ranges(after) == allocated_ranges(before).remove(range),
    ensures
        !allocated_ranges(after).contains(range),
        other != range ==> (allocated_ranges(after).contains(other) <==> allocated_ranges(
            before,
        ).contains(other)),
{
}

/// `AddressAllocator::clone` gives an allocator with the same ranges.
#[verifier::external_body]
fn address_allocator_clone(a: &AddressAllocator) -> (r: AddressAllocator)
    ensures
        same_ranges(*a, r),
{
    a.clone()
}

/// Saved state of the allocation of guest resources. Interrupt lines are not part of it: devices
/// take theirs again when they are restored.
#[derive(Debug)]
pub struct ResourceAllocatorState {
    /// Memory in the 32-bit MMIO address space.
    pub mmio32_memory: AddressAllocator,
    /// Memory in the 64-bit MMIO address space.
    pub mmio64_memory: AddressAllocator,
    /// Memory after the 64-bit MMIO address space.
    pub past_mmio64_memory: AddressAllocator,
    /// Memory for system data.
    pub system_memory: AddressAllocator,
}

/// Whether a saved state holds the same ranges as the address allocators.
pub open spec fn state_of(state: ResourceAllocatorState, r: ResourceAllocator) -> bool {
    &&& same_ranges(state.mmio32_memory, r.mmio32_memory)
    &&& same_ranges(state.mmio64_memory, r.mmio64_memory)
    &&& same_ranges(state.past_mmio64_memory, r.past_mmio64_memory)
    &&& same_ranges(state.system_memory, r.system_memory)
}

impl ResourceAllocator {
    /// The state to save.
    pub fn save(&self) -> (r: ResourceAllocatorState)
        ensures
            state_of(r, *self),
    {
        ResourceAllocatorState {
            mmio32_memory: address_allocator_clone(&self.mmio32_memory),
            mmio64_memory: address_allocator_clone(&self.mmio64_memory),
            past_mmio64_memory: address_allocator_clone(&self.past_mmio64_memory),
            system_memory: address_allocator_clone(&self.system_memory),
        }
    }

    /// The allocator that a saved state describes, with all interrupt lines free.
    pub fn restore(state: &ResourceAllocatorState) -> (r: ResourceAllocator)
        ensures
            r.wf(),
            state_of(*state, r),
            r.gsi_legacy_allocator.first_id() == layout::GSI_LEGACY_START,
            r.gsi_legacy_allocator.taken() == Seq::new(19, |i: int| false),
            r.gsi_msi_allocator.first_id() == layout::GSI_MSI_START,
            r.gsi_msi_allocator.taken() == Seq::new(4072, |i: int| false),
    {
        ResourceAllocator {
            mmio32_memory: address_allocator_clone(&state.mmio32_memory),
            mmio64_memory: address_allocator_clone(&state.mmio64_memory),
            past_mmio64_memory: address_allocator_clone(&state.past_mmio64_memory),
            system_memory: address_allocator_clone(&state.system_memory),
            ..ResourceAllocator::new()
        }
    }
}

impl Default for ResourceAllocatorState {
    fn default() -> (r: ResourceAllocatorState)
        ensures
            is_fresh(
                r.mmio32_memory,
                layout::MEM_32BIT_DEVICES_START,
                layout::MEM_32BIT_DEVICES_SIZE,
            ),
            is_fresh(
                r.mmio64_memory,
                layout::MEM_64BIT_DEVICES_START,
                layout::MEM_64BIT_DEVICES_SIZE,
            ),
            is_fresh(
                r.past_mmio64_memory,
                layout::FIRST_ADDR_PAST_64BITS_MMIO,
                layout::PAST_64BITS_MMIO_SIZE,
            ),
            is_fresh(r.system_memory, layout::SYSTEM_MEM_START, layout::SYSTEM_MEM_SIZE),
    {
        ResourceAllocator::new().save()
    }
}

/// What was handed out and what was free is the same after saving and restoring.
pub proof fn law_saved_ranges_come_back(
    before: ResourceAllocator,
    state: ResourceAllocatorState,
    after: ResourceAllocator,
)
    requires
        state_of(state, before),
        state_of(state, after),
    ensures
        same_ranges(before.mmio32_memory, after.mmio32_memory),
        same_ranges(before.mmio64_memory, after.mmio64_memory),
        same_ranges(before.past_mmio64_memory, after.past_mmio64_memory),
        same_ranges(before.system_memory, after.system_memory),
{
}

/// The largest multiple of an alignment up to an address.
proof fn lemma_last_aligned(addr: int, align: int)
    requires
        align > 0,
    ensures
        addr - align < last_aligned(addr, align) <= addr,
        last_aligned(addr, align) % align == 0,
{
    vstd::arithmetic::div_mod::lemma_fundamental_div_mod(addr, align);
    vstd::arithmetic::div_mod::lemma_mod_bound(addr, align);
    vstd::arithmetic::mul::lemma_mul_is_commutative(align, addr / align);
    vstd::arithmetic::div_mod::lemma_mod_multiples_basic(addr / align, align);
}

/// Between two neighbouring multiples of an alignment lies no third.
proof fn lemma_no_multiple_between(low: int, x: int, align: int)
    requires
        align > 0,
        low % align == 0,
        x % align == 0,
        low < x,
    ensures
        low + align <= x,
{
    vstd::arithmetic::div_mod::lemma_fundamental_div_mod(low, align);
    vstd::arithmetic::div_mod::lemma_fundamental_div_mod(x, align);
    let a = low / align;
    let b = x / align;
    assert(align * a < align * b ==> align * a + align <= align * b) by (nonlinear_arith)
        requires
            align > 0,
    {
        if align * a < align * b {
            assert(a < b);
            assert(align * (a + 1) <= align * b);
        }
    }
}

/// Whether a block of some size can stand at an address: at a multiple of its alignment, and with
/// all of it in one range that is free.
pub open spec fn can_stand(a: AddressAllocator, addr: int, size: int, align: int) -> bool {
    &&& addr % align == 0
    &&& exists|range: (int, int)| #[trigger]
        free_ranges(a).contains(range) && range.0 <= addr && addr + size - 1 <= range.1
}

/// There is room for a block exactly when there is an address at which it can stand.
pub proof fn law_room_is_a_place(a: AddressAllocator, size: int, align: int)
    requires
        size > 0,
        align > 0,
    ensures
        has_room(a, size, align) <==> exists|addr: int| #[trigger] can_stand(a, addr, size, align),
{
    if has_room(a, size, align) {
        let range = choose|range: (int, int)| #[trigger]
            free_ranges(a).contains(range) && fits(range, size, align);
        lemma_first_aligned(range.0, align);
        assert(can_stand(a, first_aligned(range.0, align), size, align));
    }
    if exists|addr: int| #[trigger] can_stand(a, addr, size, align) {
        let addr = choose|addr: int| #[trigger] can_stand(a, addr, size, align);
        let range = choose|range: (int, int)| #[trigger]
            free_ranges(a).contains(range) && range.0 <= addr && addr + size - 1 <= range.1;
        lemma_first_aligned_is_least(range.0, addr, align);
        assert(free_ranges(a).contains(range) && fits(range, size, align));
    }
}

proof fn lemma_first_aligned_is_least(low: int, addr: int, align: int)
    requires
        align > 0,
        low <= addr,
        addr % align == 0,
    ensures
        first_aligned(low, align) <= addr,
{
    lemma_first_aligned(low, align);
    lemma_last_aligned(low + align - 1, align);
    if first_aligned(low, align) > addr {
        lemma_no_multiple_between(addr, first_aligned(low, align), align);
    }
}

/// A block that is placed from below stands at the lowest address at which it can.
pub proof fn law_lowest_place_is_taken(
    before: AddressAllocator,
    after: AddressAllocator,
    start: int,
    size: int,
    align: int,
    addr: int,
)
    requires
        size > 0,
        align > 0,
        placed_first(before, after, start, size, align),
        can_stand(before, addr, size, align),
    ensures
        can_stand(before, start, size, align),
        start <= addr,
{
    let chosen = choose|range: (int, int)|
        {
            &&& #[trigger] is_first_fit(before, range, size, align)
            &&& start == first_aligned(range.0, align)
            &&& free_ranges(after) == cut_out(free_ranges(before), range, start, start + size - 1)
        };
    let range = choose|range: (int, int)| #[trigger]
        free_ranges(before).contains(range) && range.0 <= addr && addr + size - 1 <= range.1;
    lemma_first_aligned(chosen.0, align);
    assert(free_ranges(before).contains(chosen));
    lemma_first_aligned_is_least(range.0, addr, align);
    assert(fits(range, size, align));
    assert(chosen.0 <= range.0);
    lemma_first_aligned_is_least(chosen.0, addr, align);
}

/// A block that is placed from above stands at the highest address at which it can.
pub proof fn law_highest_place_is_taken(
    before: AddressAllocator,
    after: AddressAllocator,
    start: int,
    size: int,
    align: int,
    addr: int,
)
    requires
        apart(before),
        size > 0,
        align > 0,
        addr > 0,
        placed_last(before, after, start, size, align),
        can_stand(before, addr, size, align),
    ensures
        can_stand(before, start, size, align),
        addr <= start,
{
    let chosen = choose|range: (int, int)|
        {
            &&& #[trigger] is_last_fit(before, range, size, align)
            &&& start == last_aligned(range.1 - size + 1, align)
            &&& free_ranges(after) == cut_out(free_ranges(before), range, start, start + size - 1)
        };
    let range = choose|range: (int, int)| #[trigger]
        free_ranges(before).contains(range) && range.0 <= addr && addr + size - 1 <= range.1;
    lemma_last_aligned(chosen.1 - size + 1, align);
    assert(free_ranges(before).contains(chosen));
    lemma_last_aligned(range.1 - size + 1, align);
    if last_aligned(range.1 - size + 1, align) < addr {
        lemma_no_multiple_between(last_aligned(range.1 - size + 1, align), addr, align);
    }
    assert(fits_high(range, size, align));
    assert(range.0 <= chosen.0);
    assert(tracks(before, range) && tracks(before, chosen));
    assert(range.1 <= chosen.1) by {
        if range != chosen {
            assert(disjoint(range, chosen));
        }
    }
    if start < addr {
        lemma_no_multiple_between(start, addr, align);
    }
}

/// What is placed is handed out, and nothing of it is free any more; what else was free still is.
pub proof fn law_placed_addresses_are_not_free(
    before: AddressAllocator,
    after: AddressAllocator,
    start: int,
    size: int,
    align: int,
    addr: int,
)
    requires
        apart(before),
        size > 0,
        align > 0,
        placed_first(before, after, start, size, align) || placed_last(
            before,
            after,
            start,
            size,
            align,
        ),
    ensures
        allocated_ranges(after).contains((start, start + size - 1)),
        can_stand(after, addr, 1, 1) <==> can_stand(before, addr, 1, 1) && !(start <= addr < start
            + size),
{
    let first = placed_first(before, after, start, size, align);
    let range = if first {
        choose|range: (int, int)|
            {
                &&& #[trigger] is_first_fit(before, range, size, align)
                &&& start == first_aligned(range.0, align)
                &&& free_ranges(after) == cut_out(
                    free_ranges(before),
                    range,
                    start,
                    start + size - 1,
                )
            }
    } else {
        choose|range: (int, int)|
            {
                &&& #[trigger] is_last_fit(before, range, size, align)
                &&& start == last_aligned(range.1 - size + 1, align)
                &&& free_ranges(after) == cut_out(
                    free_ranges(before),
                    range,
                    start,
                    start + size - 1,
                )
            }
    };
    if first {
        lemma_first_aligned(range.0, align);
    } else {
        lemma_last_aligned(range.1 - size + 1, align);
    }
    assert(range.0 <= start && start + size - 1 <= range.1);
    assert(tracks(before, range));
    assert(addr % 1 == 0);
    let below = (range.0, start - 1);
    let above = (start + size, range.1);
    if can_stand(after, addr, 1, 1) {
        let x = choose|x: (int, int)| #[trigger]
            free_ranges(after).contains(x) && x.0 <= addr && addr + 1 - 1 <= x.1;
        if free_ranges(before).contains(x) && x != range {
            assert(tracks(before, x));
            assert(disjoint(x, range));
        } else {
            assert(x == below || x == above);
            assert(free_ranges(before).contains(range));
        }
    }
    if can_stand(before, addr, 1, 1) && !(start <= addr < start + size) {
        let x = choose|x: (int, int)| #[trigger]
            free_ranges(before).contains(x) && x.0 <= addr && addr + 1 - 1 <= x.1;
        if x != range {
            assert(free_ranges(after).contains(x));
        } else if addr < start {
            assert(free_ranges(after).contains(below));
        } else {
            assert(free_ranges(after).contains(above));
        }
    }
}

/// Numbers are handed out from the lowest: those of a later call lie above those of an earlier one,
/// and a number that is still free lies above both.
pub proof fn law_numbers_are_handed_out_upwards(
    before: IdAllocator,
    between: IdAllocator,
    after: IdAllocator,
    first: Seq<u32>,
    second: Seq<u32>,
    i: int,
    j: int,
    id: int,
)
    requires
        lowest_free(before, first),
        allocated_exactly(before, between, first),
        lowest_free(between, second),
        allocated_exactly(between, after, second),
        0 <= i < first.len(),
        0 <= j < second.len(),
        before.manages(id),
        !after.has(id),
    ensures
        !before.has(first[i] as int) && between.has(first[i] as int) && after.has(first[i] as int),
        !between.has(second[j] as int) && after.has(second[j] as int),
        first[i] < second[j] < id,
{
    assert(before.manages(first[i] as int) && between.manages(first[i] as int));
    assert(between.has(first[i] as int));
    assert(after.has(first[i] as int));
    assert(between.manages(second[j] as int) && before.manages(second[j] as int));
    assert(after.has(second[j] as int));
    assert(between.manages(id));
    assert(!between.has(id));
    assert(!before.has(id));
    assert(!before.has(second[j] as int));
    if second[j] <= first[i] {
        assert(second[j] <= first.last()) by {
            if i < first.len() - 1 {
                assert(first[i] < first[first.len() - 1]);
            }
        }
        let k = choose|k: int| 0 <= k < first.len() && #[trigger] first[k] == second[j] as int;
        assert(between.has(second[j] as int));
    }
    if id <= second[j] {
        assert(id <= second.last()) by {
            if j < second.len() - 1 {
                assert(second[j] < second[second.len() - 1]);
            }
        }
        let k = choose|k: int| 0 <= k < second.len() && #[trigger] second[k] == id;
        assert(after.has(id));
    }
}

/// In a new machine no interrupt is taken: the legacy ones are 5 to 23, the others those up to 4095;
/// and no address is handed out: devices get theirs between 3 GiB and 4 GiB, from 256 GiB to 512 GiB
/// or from 512 GiB to 1 TiB, and system tables from 639 KiB to 896 KiB.
pub proof fn law_resources_of_a_new_machine(r: ResourceAllocator, id: int, addr: int)
    requires
        r.is_new(),
    ensures
        r.gsi_legacy_allocator.manages(id) <==> 5 <= id <= 23,
        r.gsi_msi_allocator.manages(id) <==> 24 <= id <= 4095,
        !r.gsi_legacy_allocator.has(id),
        !r.gsi_msi_allocator.has(id),
        can_stand(r.mmio32_memory, addr, 1, 1) <==> 0xc000_1000 <= addr < 0xeec0_0000,
        can_stand(r.mmio64_memory, addr, 1, 1) <==> 0x40_0000_0000 <= addr < 0x80_0000_0000,
        can_stand(r.past_mmio64_memory, addr, 1, 1) <==> 0x80_0000_0000 <= addr < 0x100_0000_0000,
        can_stand(r.system_memory, addr, 1, 1) <==> 0x9_fc00 <= addr < 0xe_0000,
{
    assert(addr % 1 == 0);
    assert(free_ranges(r.mmio32_memory).contains((0xc000_1000int, 0xeec0_0000int - 1)));
    assert(free_ranges(r.mmio64_memory).contains((0x40_0000_0000int, 0x80_0000_0000int - 1)));
    assert(free_ranges(r.past_mmio64_memory).contains((0x80_0000_0000int, 0x100_0000_0000int - 1)));
    assert(free_ranges(r.system_memory).contains((0x9_fc00int, 0xe_0000int - 1)));
}

/// Where a block can stand above the start of all addresses, there is room for it from above.
pub proof fn law_room_above(a: AddressAllocator, size: int, align: int, addr: int)
    requires
        size > 0,
        align > 0,
        addr > 0,
        can_stand(a, addr, size, align),
    ensures
        has_room_high(a, size, align),
{
    let range = choose|range: (int, int)| #[trigger]
        free_ranges(a).contains(range) && range.0 <= addr && addr + size - 1 <= range.1;
    lemma_last_aligned(range.1 - size + 1, align);
    if last_aligned(range.1 - size + 1, align) < addr {
        lemma_no_multiple_between(last_aligned(range.1 - size + 1, align), addr, align);
    }
    assert(free_ranges(a).contains(range) && fits_high(range, size, align));
}

} // verus!
