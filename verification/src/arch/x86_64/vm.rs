//! x86 virtual machines.

use vstd::prelude::*;

use crate::vstate::memory::GuestMemoryState;
use crate::vstate::resources::{state_of, ResourceAllocator, ResourceAllocatorState};
use crate::vstate::vm::VmCommon;

verus! {

/// The interrupt controller of the first eight lines.
pub const KVM_IRQCHIP_PIC_MASTER: u32 = 0;

/// The interrupt controller of the second eight lines.
pub const KVM_IRQCHIP_PIC_SLAVE: u32 = 1;

/// The interrupt controller for devices.
pub const KVM_IRQCHIP_IOAPIC: u32 = 2;

/// Flag of a clock: it has the time of the host.
pub const KVM_CLOCK_REALTIME: u32 = 4;

/// Why a virtual machine cannot be set up.
#[derive(Debug, Clone, Copy, PartialEq, Eq, Structural)]
pub enum KvmVmError {
    /// A capability cannot be checked.
    CheckCapability,
    /// The saved clock has no time of the host.
    ClockRealtimeNotInState,
}

/// The size of the extended state of a CPU, from the answer of the hypervisor: a negative answer is
/// an error, and zero means that the state has a fixed size.
pub fn xsave2_size(answer: i32) -> (r: Result<Option<usize>, KvmVmError>)
    ensures
        answer < 0 ==> r is Err && r->Err_0 == KvmVmError::CheckCapability,
        answer == 0 ==> r is Ok && r->Ok_0 is None,
        answer > 0 ==> r is Ok && r->Ok_0 == Some(answer as usize),
{
    if answer < 0 {
        Err(KvmVmError::CheckCapability)
    } else if answer == 0 {
        Ok(None)
    } else {
        Ok(Some(answer as usize))
    }
}

/// The flags with which a saved clock is set: it moves on with the time of the host only if that is
/// asked for.
pub fn restored_clock_flags(flags: u32, clock_realtime: bool) -> (r: Result<u32, KvmVmError>)
    ensures
        clock_realtime && flags & KVM_CLOCK_REALTIME == 0 ==> r is Err && r->Err_0
            == KvmVmError::ClockRealtimeNotInState,
        clock_realtime && flags & KVM_CLOCK_REALTIME != 0 ==> r is Ok && r->Ok_0
            == KVM_CLOCK_REALTIME,
        !clock_realtime ==> r is Ok && r->Ok_0 == 0,
{
    if clock_realtime {
        if flags & KVM_CLOCK_REALTIME == 0 {
            return Err(KvmVmError::ClockRealtimeNotInState);
        }
        Ok(KVM_CLOCK_REALTIME)
    } else {
        Ok(0)
    }
}

/// What the hypervisor is asked for, or told, about a virtual machine.
#[derive(Debug, Clone, Copy, PartialEq, Eq, Structural)]
pub enum VmStateStep {
    /// The state of the timer.
    Pit2,
    /// The clock, with flags.
    Clock(u32),
    /// The state of an interrupt controller.
    IrqChip(u32),
}

/// What is saved of a virtual machine, apart from what the hypervisor keeps.
#[derive(Debug)]
pub struct VmState {
    /// The layout of its memory.
    pub memory: GuestMemoryState,
    /// Its interrupt lines and addresses.
    pub resource_allocator: ResourceAllocatorState,
}

/// An x86 virtual machine.
#[derive(Debug)]
pub struct KvmVm {
    /// What does not depend on the architecture.
    pub common: VmCommon,
    /// Addresses of the model specific registers that are saved.
    pub msrs_to_save: Vec<u32>,
    /// The size of the extended state of a CPU, where it is not fixed.
    pub xsave2_size: Option<usize>,
}

/// What the hypervisor is told when a virtual machine is restored, and what goes wrong afterwards.
pub open spec fn restore_steps(flags: u32, clock_realtime: bool) -> (
    Seq<VmStateStep>,
    Option<KvmVmError>,
) {
    if clock_realtime && flags & KVM_CLOCK_REALTIME == 0 {
        (seq![VmStateStep::Pit2], Some(KvmVmError::ClockRealtimeNotInState))
    } else {
        (
            seq![
                VmStateStep::Pit2,
                VmStateStep::Clock(
                    if clock_realtime {
                        KVM_CLOCK_REALTIME
                    } else {
                        0
                    },
                ),
                VmStateStep::IrqChip(KVM_IRQCHIP_PIC_MASTER),
                VmStateStep::IrqChip(KVM_IRQCHIP_PIC_SLAVE),
                VmStateStep::IrqChip(KVM_IRQCHIP_IOAPIC),
            ],
            None,
        )
    }
}

impl KvmVm {
    /// A virtual machine, from the answer of the hypervisor about the extended state of a CPU.
    pub fn new(common: VmCommon, msrs_to_save: Vec<u32>, xsave2_answer: i32) -> (r: Result<
        KvmVm,
        KvmVmError,
    >)
        ensures
            xsave2_answer < 0 ==> r is Err && r->Err_0 == KvmVmError::CheckCapability,
            xsave2_answer >= 0 ==> r is Ok && r->Ok_0 == (KvmVm {
                common,
                msrs_to_save,
                xsave2_size: if xsave2_answer == 0 {
                    None
                } else {
                    Some(xsave2_answer as usize)
                },
            }),
    {
        match xsave2_size(xsave2_answer) {
            Ok(xsave2_size) => Ok(KvmVm { common, msrs_to_save, xsave2_size }),
            Err(e) => Err(e),
        }
    }

    /// What the hypervisor is told when the machine is restored, and what goes wrong afterwards.
    pub fn restore_plan(flags: u32, clock_realtime: bool) -> (r: (
        Vec<VmStateStep>,
        Option<KvmVmError>,
    ))
        ensures
            (r.0@, r.1) == restore_steps(flags, clock_realtime),
    {
        let mut steps: Vec<VmStateStep> = Vec::new();
        steps.push(VmStateStep::Pit2);
        match restored_clock_flags(flags, clock_realtime) {
            Err(e) => {
                assert(steps@ =~= restore_steps(flags, clock_realtime).0);
                (steps, Some(e))
            },
            Ok(flags_to_set) => {
                steps.push(VmStateStep::Clock(flags_to_set));
                steps.push(VmStateStep::IrqChip(KVM_IRQCHIP_PIC_MASTER));
                steps.push(VmStateStep::IrqChip(KVM_IRQCHIP_PIC_SLAVE));
                steps.push(VmStateStep::IrqChip(KVM_IRQCHIP_IOAPIC));
                assert(steps@ =~= restore_steps(flags, clock_realtime).0);
                (steps, None)
            },
        }
    }

    /// Takes over the interrupt lines and addresses of a saved state, once the hypervisor was told.
    pub fn restore_state(&mut self, state: &VmState)
        requires
            old(self).common.wf(),
        ensures
            final(self).common.wf(),
            *final(self) == (KvmVm { common: final(self).common, ..*old(self) }),
            final(self).common == (VmCommon {
                resource_allocator: final(self).common.resource_allocator,
                ..old(self).common
            }),
            state_of(state.resource_allocator, final(self).common.resource_allocator),
    {
        self.common.resource_allocator = ResourceAllocator::restore(&state.resource_allocator);
    }

    /// What is saved of the machine.
    pub fn save_state(&self) -> (r: VmState)
        requires
            self.common.wf(),
        ensures
            r.memory.regions@.len() == self.common.guest_memory.regions@.len(),
            forall|i: int|
                0 <= i < self.common.guest_memory.regions@.len()
                    ==> self.common.guest_memory.regions@[i].described(
                    #[trigger] r.memory.regions@[i],
                ),
            state_of(r.resource_allocator, self.common.resource_allocator),
    {
        VmState {
            memory: self.common.guest_memory.describe(),
            resource_allocator: self.common.resource_allocator.save(),
        }
    }
}

/// The clock of a machine moves on with the time of the host only where that is asked for, and is
/// then known to have it.
pub proof fn law_clock_follows_host(flags: u32, clock_realtime: bool)
    requires
        restore_steps(flags, clock_realtime).1 is None,
    ensures
        restore_steps(flags, clock_realtime).0[1] == VmStateStep::Clock(KVM_CLOCK_REALTIME)
            <==> clock_realtime,
        clock_realtime ==> flags & KVM_CLOCK_REALTIME != 0,
{
}

/// The machine is restored in a fixed order: the timer, the clock, and the three interrupt
/// controllers by their numbers. The clock follows the host (4) only if that is asked for.
pub proof fn law_machine_is_restored_in_order(flags: u32, clock_realtime: bool)
    ensures
        ({
            let (steps, error) = restore_steps(flags, clock_realtime);
            &&& error is Some <==> clock_realtime && flags & 4 == 0
            &&& error is Some ==> steps =~= seq![VmStateStep::Pit2]
            &&& error is None ==> steps =~= seq![
                VmStateStep::Pit2,
                VmStateStep::Clock(
                    if clock_realtime {
                        4
                    } else {
                        0
                    },
                ),
                VmStateStep::IrqChip(0),
                VmStateStep::IrqChip(1),
                VmStateStep::IrqChip(2),
            ]
        }),
{
}

} // verus!
