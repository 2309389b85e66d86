//! Capabilities of the hypervisor that x86 guests need.

use vstd::prelude::*;

verus! {

/// The interrupt controllers are in the kernel.
pub const KVM_CAP_IRQCHIP: u32 = 0;

/// Guest memory is memory of the process.
pub const KVM_CAP_USER_MEMORY: u32 = 3;

/// The address of the task state segment can be set.
pub const KVM_CAP_SET_TSS_ADDR: u32 = 4;

/// Answers of the CPU identification instruction can be set.
pub const KVM_CAP_EXT_CPUID: u32 = 7;

/// The state of a CPU among others can be read and set.
pub const KVM_CAP_MP_STATE: u32 = 14;

/// Interrupts can come from event descriptors.
pub const KVM_CAP_IRQFD: u32 = 32;

/// The timer is in the kernel.
pub const KVM_CAP_PIT2: u32 = 33;

/// The state of the timer can be read and set.
pub const KVM_CAP_PIT_STATE2: u32 = 35;

/// Accesses of the guest can go to event descriptors.
pub const KVM_CAP_IOEVENTFD: u32 = 36;

/// The clock can be adjusted.
pub const KVM_CAP_ADJUST_CLOCK: u32 = 39;

/// Pending events of a CPU can be read and set.
pub const KVM_CAP_VCPU_EVENTS: u32 = 41;

/// Debug registers can be read and set.
pub const KVM_CAP_DEBUGREGS: u32 = 50;

/// Extended state can be read and set.
pub const KVM_CAP_XSAVE: u32 = 55;

/// Extended control registers can be read and set.
pub const KVM_CAP_XCRS: u32 = 56;

/// The capabilities that every guest needs.
pub open spec fn default_capabilities() -> Seq<u32> {
    seq![
        KVM_CAP_IRQCHIP,
        KVM_CAP_IOEVENTFD,
        KVM_CAP_IRQFD,
        KVM_CAP_USER_MEMORY,
        KVM_CAP_SET_TSS_ADDR,
        KVM_CAP_PIT2,
        KVM_CAP_PIT_STATE2,
        KVM_CAP_ADJUST_CLOCK,
        KVM_CAP_DEBUGREGS,
        KVM_CAP_MP_STATE,
        KVM_CAP_VCPU_EVENTS,
        KVM_CAP_XCRS,
        KVM_CAP_XSAVE,
        KVM_CAP_EXT_CPUID,
    ]
}

/// The capabilities that every guest needs.
pub fn default_capability_list() -> (r: Vec<u32>)
    ensures
        r@ == default_capabilities(),
{
    vec![
        KVM_CAP_IRQCHIP,
        KVM_CAP_IOEVENTFD,
        KVM_CAP_IRQFD,
        KVM_CAP_USER_MEMORY,
        KVM_CAP_SET_TSS_ADDR,
        KVM_CAP_PIT2,
        KVM_CAP_PIT_STATE2,
        KVM_CAP_ADJUST_CLOCK,
        KVM_CAP_DEBUGREGS,
        KVM_CAP_MP_STATE,
        KVM_CAP_VCPU_EVENTS,
        KVM_CAP_XCRS,
        KVM_CAP_XSAVE,
        KVM_CAP_EXT_CPUID,
    ]
}

} // verus!
