//! Configuration of hotpluggable memory.

use vstd::arithmetic::power2::is_pow2;
use vstd::prelude::*;

verus! {

/// Default and least size of a block, in MiB.
pub const VIRTIO_MEM_DEFAULT_BLOCK_SIZE_MIB: usize = 2;

/// Default and least size of a slot, in MiB.
pub const VIRTIO_MEM_DEFAULT_SLOT_SIZE_MIB: usize = 128;

/// Why a configuration of hotpluggable memory is refused.
#[derive(Debug, Clone, Copy, PartialEq, Eq, Structural)]
pub enum MemoryHotplugConfigError {
    /// A block is smaller than this many MiB.
    BlockSizeTooSmall(usize),
    /// The size of a block is no power of two.
    BlockSizeNotPowerOfTwo,
    /// A slot is smaller than this many MiB.
    SlotSizeTooSmall(usize),
    /// The size of a slot is no multiple of that of a block, in MiB.
    SlotSizeNotMultipleOfBlockSize(usize),
    /// The memory is smaller than a slot, in MiB.
    TotalSizeTooSmall(usize),
    /// The size of the memory is no multiple of that of a slot, in MiB.
    TotalSizeNotMultipleOfSlotSize(usize),
}

/// The default size of a block, in MiB.
pub fn default_block_size_mib() -> (r: usize)
    ensures
        r == VIRTIO_MEM_DEFAULT_BLOCK_SIZE_MIB,
{
    VIRTIO_MEM_DEFAULT_BLOCK_SIZE_MIB
}

/// The default size of a slot, in MiB.
pub fn default_slot_size_mib() -> (r: usize)
    ensures
        r == VIRTIO_MEM_DEFAULT_SLOT_SIZE_MIB,
{
    VIRTIO_MEM_DEFAULT_SLOT_SIZE_MIB
}

/// Configuration of hotpluggable memory.
#[derive(Debug, Clone, Copy, PartialEq, Eq, Structural)]
pub struct MemoryHotplugConfig {
    /// Size of the memory, in MiB.
    pub total_size_mib: usize,
    /// Size of a block, in MiB: the least that the guest can plug.
    pub block_size_mib: usize,
    /// Size of a slot, in MiB: the least that the host can attach.
    pub slot_size_mib: usize,
}

// Whether a number is a power of two.
fn power_of_two(n: usize) -> (r: bool)
    ensures
        r == is_pow2(n as int),
{
    if n == 0 {
        reveal(is_pow2);
        return false;
    }
    let mut rest: usize = n;
    while rest % 2 == 0
        invariant
            rest > 0,
            is_pow2(n as int) == is_pow2(rest as int),
        decreases rest,
    {
        reveal(is_pow2);
        rest = rest / 2;
    }
    reveal(is_pow2);
    rest == 1
}

/// The answer to a configuration: sizes are powers of two or multiples, and none is too small.
pub open spec fn validated(c: MemoryHotplugConfig) -> Result<(), MemoryHotplugConfigError> {
    if c.block_size_mib < VIRTIO_MEM_DEFAULT_BLOCK_SIZE_MIB {
        Err(MemoryHotplugConfigError::BlockSizeTooSmall(VIRTIO_MEM_DEFAULT_BLOCK_SIZE_MIB))
    } else if !is_pow2(c.block_size_mib as int) {
        Err(MemoryHotplugConfigError::BlockSizeNotPowerOfTwo)
    } else if c.slot_size_mib < VIRTIO_MEM_DEFAULT_SLOT_SIZE_MIB {
        Err(MemoryHotplugConfigError::SlotSizeTooSmall(VIRTIO_MEM_DEFAULT_SLOT_SIZE_MIB))
    } else if c.slot_size_mib % c.block_size_mib != 0 {
        Err(MemoryHotplugConfigError::SlotSizeNotMultipleOfBlockSize(c.block_size_mib))
    } else if c.total_size_mib < c.slot_size_mib {
        Err(MemoryHotplugConfigError::TotalSizeTooSmall(c.slot_size_mib))
    } else if c.total_size_mib % c.slot_size_mib != 0 {
        Err(MemoryHotplugConfigError::TotalSizeNotMultipleOfSlotSize(c.slot_size_mib))
    } else {
        Ok(())
    }
}

impl MemoryHotplugConfig {
    /// Checks the configuration.
    pub fn validate(&self) -> (r: Result<(), MemoryHotplugConfigError>)
        ensures
            r == validated(*self),
    {
        if self.block_size_mib < VIRTIO_MEM_DEFAULT_BLOCK_SIZE_MIB {
            return Err(
                MemoryHotplugConfigError::BlockSizeTooSmall(VIRTIO_MEM_DEFAULT_BLOCK_SIZE_MIB),
            );
        }
        if !power_of_two(self.block_size_mib) {
            return Err(MemoryHotplugConfigError::BlockSizeNotPowerOfTwo);
        }
        if self.slot_size_mib < VIRTIO_MEM_DEFAULT_SLOT_SIZE_MIB {
            return Err(
                MemoryHotplugConfigError::SlotSizeTooSmall(VIRTIO_MEM_DEFAULT_SLOT_SIZE_MIB),
            );
        }
        if self.slot_size_mib % self.block_size_mib != 0 {
            return Err(
                MemoryHotplugConfigError::SlotSizeNotMultipleOfBlockSize(self.block_size_mib),
            );
        }
        if self.total_size_mib < self.slot_size_mib {
            return Err(MemoryHotplugConfigError::TotalSizeTooSmall(self.slot_size_mib));
        }
        if self.total_size_mib % self.slot_size_mib != 0 {
            return Err(
                MemoryHotplugConfigError::TotalSizeNotMultipleOfSlotSize(self.slot_size_mib),
            );
        }
        Ok(())
    }
}

/// Memory with an accepted configuration consists of whole slots, and each slot of whole blocks.
pub proof fn law_whole_slots_and_blocks(c: MemoryHotplugConfig)
    requires
        validated(c) is Ok,
    ensures
        exists|slots: int, blocks: int|
            slots > 0 && blocks > 0 && c.total_size_mib == #[trigger] (slots * c.slot_size_mib)
                && c.slot_size_mib == #[trigger] (blocks * c.block_size_mib),
{
    let slots = c.total_size_mib as int / c.slot_size_mib as int;
    let blocks = c.slot_size_mib as int / c.block_size_mib as int;
    vstd::arithmetic::div_mod::lemma_fundamental_div_mod(
        c.total_size_mib as int,
        c.slot_size_mib as int,
    );
    vstd::arithmetic::div_mod::lemma_fundamental_div_mod(
        c.slot_size_mib as int,
        c.block_size_mib as int,
    );
    vstd::arithmetic::mul::lemma_mul_is_commutative(slots, c.slot_size_mib as int);
    vstd::arithmetic::mul::lemma_mul_is_commutative(blocks, c.block_size_mib as int);
    assert(slots > 0) by (nonlinear_arith)
        requires
            slots * c.slot_size_mib == c.total_size_mib,
            c.total_size_mib > 0,
            c.slot_size_mib > 0,
    ;
    assert(blocks > 0) by (nonlinear_arith)
        requires
            blocks * c.block_size_mib == c.slot_size_mib,
            c.slot_size_mib > 0,
            c.block_size_mib > 0,
    ;
}

/// A request to change how much of the memory is plugged.
#[derive(Debug, Clone, Copy, PartialEq, Eq, Structural)]
pub struct MemoryHotplugSizeUpdate {
    /// Requested size, in MiB.
    pub requested_size_mib: usize,
}

/// Which hotpluggable memory can be: blocks of at least two MiB, a power of two, slots of at least 128
/// MiB that are made of whole blocks, and at least one whole slot.
pub proof fn law_which_hotpluggable_memory_can_be(c: MemoryHotplugConfig)
    ensures
        validated(c) is Ok <==> c.block_size_mib >= 2 && is_pow2(c.block_size_mib as int)
            && c.slot_size_mib >= 128 && c.slot_size_mib as int % c.block_size_mib as int == 0
            && c.total_size_mib >= c.slot_size_mib && c.total_size_mib as int
            % c.slot_size_mib as int == 0,
{
}

} // verus!
