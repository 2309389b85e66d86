//! Saved state of persistent memory devices.

use vstd::prelude::*;

use crate::devices::virtio::device::VirtioDeviceType;
use crate::devices::virtio::persist::VirtioDeviceState;
use crate::devices::virtio::pmem::device::{
    released, ConfigSpace, Pmem, PmemError, PmemMmap, UserMemoryRegion, KVM_MEM_READONLY,
};
use crate::devices::virtio::queue::Queue;
use crate::rate_limiter::{RateLimiter, RateLimiterState};
use crate::vmm_config::pmem::PmemConfig;
use crate::vstate::resources::ResourceAllocator;

verus! {

/// Saved state of a persistent memory device.
#[derive(Debug)]
pub struct PmemState {
    /// State that every virtio device has.
    pub virtio_state: VirtioDeviceState,
    /// The place in the address space of the guest.
    pub config_space: ConfigSpace,
    /// Configuration.
    pub config: PmemConfig,
    /// State of the limits.
    pub rate_limiter_state: RateLimiterState,
}

/// The state that is saved of a device.
pub open spec fn saved(pmem: Pmem) -> PmemState {
    PmemState {
        virtio_state: VirtioDeviceState {
            device_type: VirtioDeviceType::Pmem,
            avail_features: pmem.avail_features,
            acked_features: pmem.acked_features,
            activated: pmem.activated,
        },
        config_space: pmem.guest_region.config_space,
        config: pmem.config,
        rate_limiter_state: RateLimiterState {
            ops: pmem.rate_limiter.ops,
            bandwidth: pmem.rate_limiter.bandwidth,
        },
    }
}

impl PmemState {
    /// Whether a device is a restored one of this state. It starts inactive.
    pub open spec fn describes(self, pmem: Pmem) -> bool {
        &&& pmem.guest_region.config_space == self.config_space
        &&& pmem.avail_features == 1u64 << 32u32
        &&& pmem.acked_features == self.virtio_state.acked_features
        &&& pmem.config == self.config
        &&& !pmem.activated
        &&& pmem.rate_limiter == (RateLimiter {
            ops: self.rate_limiter_state.ops,
            bandwidth: self.rate_limiter_state.bandwidth,
            timer_active: false,
        })
    }

    /// The state to save of a device.
    pub fn save(pmem: &Pmem) -> (r: PmemState)
        ensures
            r == saved(*pmem),
    {
        PmemState {
            virtio_state: VirtioDeviceState {
                device_type: VirtioDeviceType::Pmem,
                avail_features: pmem.avail_features,
                acked_features: pmem.acked_features,
                activated: pmem.activated,
            },
            config_space: pmem.guest_region.config_space,
            config: pmem.config.copied(),
            rate_limiter_state: pmem.rate_limiter.save(),
        }
    }

    /// The device that a saved state describes, over memory of the host and with a queue. It keeps
    /// its place in the address space of the guest. The second part of the answer is the region to
    /// be set up.
    pub fn restore(
        &self,
        resources: &mut ResourceAllocator,
        slot: Option<u32>,
        mmap: PmemMmap,
        queue: Queue,
    ) -> (r: Result<(Pmem, UserMemoryRegion), PmemError>)
        requires
            queue.wf(),
            slot is None ==> self.config_space.size > 0 && self.config_space.start
                + self.config_space.size - 1 <= u64::MAX,
        ensures
            r is Ok <==> slot is Some,
            r is Err ==> r->Err_0 == PmemError::NoKvmSlotAvailable && released(
                *old(resources),
                *final(resources),
                self.config_space,
            ),
            r matches Ok((pmem, region)) ==> {
                &&& *final(resources) == *old(resources)
                &&& self.describes(pmem)
                &&& pmem.queue == queue
                &&& pmem.mmap == mmap
                &&& pmem.kvm_mem_slot.slot == slot->Some_0
                &&& region == (UserMemoryRegion {
                    slot: slot->Some_0,
                    guest_phys_addr: self.config_space.start,
                    memory_size: self.config_space.size,
                    userspace_addr: mmap.mmap_ptr,
                    flags: if self.config.read_only {
                        KVM_MEM_READONLY
                    } else {
                        0
                    },
                })
            },
    {
        match Pmem::new_with_queues(
            resources,
            slot,
            mmap,
            self.config.copied(),
            queue,
            self.virtio_state.acked_features,
            Some(self.config_space),
        ) {
            Ok((mut pmem, region)) => {
                pmem.rate_limiter = RateLimiter::restore(&self.rate_limiter_state);
                Ok((pmem, region))
            },
            Err(e) => Err(e),
        }
    }
}

/// A device that is saved and restored is saved the same again, but for being active. Every device
/// of memory on disk offers the same one feature.
pub proof fn law_restored_state(before: Pmem, after: Pmem)
    requires
        before.avail_features == 1u64 << 32u32,
        saved(before).describes(after),
    ensures
        saved(after) == (PmemState {
            virtio_state: VirtioDeviceState { activated: false, ..saved(before).virtio_state },
            ..saved(before)
        }),
{
}

/// A device that is restored is the one that was saved: where its file is in guest memory, how it is
/// configured, what was agreed on with its driver and what limits it. Its driver has to activate it
/// again.
pub proof fn law_saved_device_comes_back(before: Pmem, after: Pmem)
    requires
        saved(before).describes(after),
    ensures
        after.guest_region.config_space == before.guest_region.config_space,
        after.config == before.config,
        after.acked_features == before.acked_features,
        after.rate_limiter.ops == before.rate_limiter.ops,
        after.rate_limiter.bandwidth == before.rate_limiter.bandwidth,
        !after.rate_limiter.timer_active,
        !after.activated,
        saved(before).virtio_state.activated == before.activated,
        saved(before).virtio_state.avail_features == before.avail_features,
{
}

} // verus!
