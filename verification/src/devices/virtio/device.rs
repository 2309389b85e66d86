//! What all virtio devices have in common.

use vstd::prelude::*;

verus! {

/// Feature bit: the device complies with version one of the standard.
pub const VIRTIO_F_VERSION_1: u32 = 32;

/// Feature bit: notifications are suppressed by event indices.
pub const VIRTIO_RING_F_EVENT_IDX: u32 = 29;

/// What a virtio device is.
#[derive(Debug, Clone, Copy, PartialEq, Eq, Structural)]
pub enum VirtioDeviceType {
    /// Network interface.
    Net,
    /// Block device.
    Block,
    /// Source of entropy.
    Rng,
    /// Memory balloon.
    Balloon,
    /// Socket between guest and host.
    Vsock,
    /// Hotpluggable memory.
    Mem,
    /// Persistent memory.
    Pmem,
}

/// Why a device cannot be made active.
#[derive(Debug, Clone, Copy, PartialEq, Eq, Structural)]
pub enum ActivateError {
    /// The event loop cannot be told.
    EventFd,
    /// A queue is not in guest memory.
    QueueMemoryError,
    /// The host interface does not take the flags.
    TapSetOffload,
}

/// Why the guest is interrupted.
#[derive(Debug, Clone, Copy, PartialEq, Eq, Structural)]
pub enum VirtioInterruptType {
    /// The configuration space changed.
    Config,
    /// A queue has new used entries.
    Queue(u16),
}

/// Whether a set of features holds a given bit.
pub open spec fn feature(features: u64, bit: u32) -> bool {
    features & (1u64 << bit) != 0
}

/// Whether a set of features holds a given bit.
pub fn has_feature(features: u64, bit: u32) -> (r: bool)
    requires
        bit < 64,
    ensures
        r == feature(features, bit),
{
    features & (1u64 << bit) != 0
}

/// The bytes of a configuration space after a write, which takes effect only if it lies inside.
pub open spec fn config_written(space: Seq<u8>, offset: u64, data: Seq<u8>) -> Seq<u8> {
    if offset + data.len() <= space.len() {
        Seq::new(
            space.len(),
            |i: int|
                if offset <= i < offset + data.len() {
                    data[i - offset]
                } else {
                    space[i]
                },
        )
    } else {
        space
    }
}

/// Writes to the bytes of a configuration space, and says whether the write lies inside.
pub fn write_config_bytes(space: &mut Vec<u8>, offset: u64, data: &[u8]) -> (r: bool)
    ensures
        final(space)@ == config_written(old(space)@, offset, data@),
        r == (offset + data@.len() <= old(space)@.len()),
{
    let len: usize = space.len();
    if offset > len as u64 || data.len() > len - offset as usize {
        return false;
    }
    let start: usize = offset as usize;
    let ghost before = space@;
    let mut i: usize = 0;
    while i < data.len()
        invariant
            i <= data@.len(),
            start + data@.len() <= len,
            len == before.len(),
            space@.len() == before.len(),
            forall|k: int|
                0 <= k < space@.len() ==> #[trigger] space@[k] == if start <= k < start + i {
                    data@[k - start]
                } else {
                    before[k]
                },
        decreases data.len() - i,
    {
        space.set(start + i, data[i]);
        i = i + 1;
    }
    assert(space@ =~= config_written(before, offset, data@));
    true
}

/// A write to a configuration space never changes its length, nor what lies outside of the write.
pub proof fn law_config_write_is_local(space: Seq<u8>, offset: u64, data: Seq<u8>, i: int)
    requires
        0 <= i < space.len(),
        i < offset || offset + data.len() <= i,
    ensures
        config_written(space, offset, data).len() == space.len(),
        config_written(space, offset, data)[i] == space[i],
{
}

} // verus!
