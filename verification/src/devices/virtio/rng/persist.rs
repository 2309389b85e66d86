//! Saved state of sources of entropy.

use vstd::prelude::*;

use crate::devices::virtio::device::VirtioDeviceType;
use crate::devices::virtio::persist::VirtioDeviceState;
use crate::devices::virtio::queue::Queue;
use crate::devices::virtio::rng::device::Entropy;
use crate::rate_limiter::{RateLimiter, RateLimiterState};

verus! {

/// Saved state of a source of entropy.
#[derive(Debug, Clone, Copy, PartialEq, Eq, Structural)]
pub struct EntropyState {
    /// State that every virtio device has.
    pub virtio_state: VirtioDeviceState,
    /// State of the limits.
    pub rate_limiter_state: RateLimiterState,
}

/// The state that is saved of a device.
pub open spec fn saved(entropy: Entropy) -> EntropyState {
    EntropyState {
        virtio_state: VirtioDeviceState {
            device_type: VirtioDeviceType::Rng,
            avail_features: entropy.avail_features,
            acked_features: entropy.acked_features,
            activated: entropy.activated,
        },
        rate_limiter_state: RateLimiterState {
            ops: entropy.rate_limiter.ops,
            bandwidth: entropy.rate_limiter.bandwidth,
        },
    }
}

/// Whether a device was made from a saved state.
pub open spec fn restored(state: EntropyState, entropy: Entropy) -> bool {
    &&& entropy.avail_features == state.virtio_state.avail_features
    &&& entropy.acked_features == state.virtio_state.acked_features
    &&& !entropy.activated
    &&& entropy.rate_limiter == (RateLimiter {
        ops: state.rate_limiter_state.ops,
        bandwidth: state.rate_limiter_state.bandwidth,
        timer_active: false,
    })
}

impl EntropyState {
    /// The state to save of a device.
    pub fn save(entropy: &Entropy) -> (r: EntropyState)
        ensures
            r == saved(*entropy),
    {
        EntropyState {
            virtio_state: VirtioDeviceState {
                device_type: VirtioDeviceType::Rng,
                avail_features: entropy.avail_features,
                acked_features: entropy.acked_features,
                activated: entropy.activated,
            },
            rate_limiter_state: entropy.rate_limiter.save(),
        }
    }

    /// The device that a saved state describes, with a queue.
    pub fn restore(&self, queue: Queue) -> (r: Entropy)
        ensures
            restored(*self, r),
            r.queue == queue,
            queue.wf() ==> r.wf(),
    {
        let mut entropy = Entropy::new_with_queues(
            queue,
            RateLimiter::restore(&self.rate_limiter_state),
        );
        entropy.avail_features = self.virtio_state.avail_features;
        entropy.acked_features = self.virtio_state.acked_features;
        entropy
    }
}

/// A device that is saved and restored is saved the same again, but for being active.
pub proof fn law_restored_state(before: Entropy, after: Entropy)
    requires
        restored(saved(before), after),
    ensures
        saved(after) == (EntropyState {
            virtio_state: VirtioDeviceState { activated: false, ..saved(before).virtio_state },
            ..saved(before)
        }),
{
}

/// A device that is restored is the one that was saved: what was agreed on with its driver and what
/// limits it. Its driver has to activate it again.
pub proof fn law_saved_device_comes_back(before: Entropy, after: Entropy)
    requires
        restored(saved(before), after),
    ensures
        after.avail_features == before.avail_features,
        after.acked_features == before.acked_features,
        after.rate_limiter.ops == before.rate_limiter.ops,
        after.rate_limiter.bandwidth == before.rate_limiter.bandwidth,
        !after.rate_limiter.timer_active,
        !after.activated,
        saved(before).virtio_state.activated == before.activated,
{
}

} // verus!
