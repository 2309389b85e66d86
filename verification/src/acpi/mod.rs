//! Tables that describe the hardware to the guest.

use vstd::prelude::*;

use crate::arch::layout;
use crate::vstate::guest_memory::GuestMemory;
use crate::vstate::resources::{
    address_allocate_first, apart, can_hand_out, can_stand, has_room, is_power_of_two,
    law_blocks_never_overlap, law_placed_addresses_are_not_free, placed_first, same_ranges,
    AllocatorError, ResourceAllocator,
};

verus! {

/// Flag of the fixed table: there is no legacy hardware.
pub const FADT_F_HW_REDUCED_ACPI: u8 = 20;

/// Flag of the fixed table: there is no power button.
pub const FADT_F_PWR_BUTTON: u8 = 4;

/// Flag of the fixed table: there is no sleep button.
pub const FADT_F_SLP_BUTTON: u8 = 5;

/// Address of the configuration space of the PCI bus.
pub const PCI_MMCONFIG_START: u64 = 0xeec0_0000;

/// Why tables cannot be given to the guest.
#[derive(Debug, Clone, Copy, PartialEq, Eq, Structural)]
pub enum AcpiError {
    /// There is no room for a table.
    VmAllocator(AllocatorError),
    /// A table lies outside of guest memory.
    GuestMemory,
}

/// The table that is to be made next.
#[derive(Debug, Clone, Copy, PartialEq, Eq, Structural)]
pub enum AcpiStep {
    /// The description of the devices.
    Dsdt,
    /// The fixed table.
    Fadt {
        /// Where the description of the devices is.
        dsdt_addr: u64,
    },
    /// The table of the interrupt controllers.
    Madt,
    /// The table of the PCI bus. The list of tables does not name it.
    Mcfg {
        /// Where its configuration space is.
        pci_mmio_config_addr: u64,
    },
    /// The list of tables. The guest gets just these two.
    Xsdt {
        /// Where the fixed table is.
        fadt_addr: u64,
        /// Where the table of the interrupt controllers is.
        madt_addr: u64,
    },
    /// The pointer to the list of tables.
    Rsdp {
        /// Where the list is.
        xsdt_addr: u64,
    },
    /// All tables are there.
    Done,
}

/// Puts tables into guest memory, one after the other.
#[derive(Debug, Clone, Copy, PartialEq, Eq, Structural)]
pub struct AcpiTableWriter {
    /// The table that is to be made next.
    pub step: AcpiStep,
    /// Where the fixed table is, once it is there.
    pub fadt_addr: u64,
    /// Where the table of the interrupt controllers is, once it is there.
    pub madt_addr: u64,
}

/// The bytes of the description of the devices: first the devices on the bus, then the others, the
/// PCI bus if there is one, and what the architecture adds.
pub fn dsdt_data(mmio: &Vec<u8>, acpi: &Vec<u8>, pci: Option<&Vec<u8>>, arch: &Vec<u8>) -> (r: Vec<
    u8,
>)
    ensures
        r@ == mmio@ + acpi@ + (match pci {
            Some(bytes) => bytes@,
            None => seq![],
        }) + arch@,
{
    let mut data: Vec<u8> = Vec::new();
    data.extend_from_slice(mmio.as_slice());
    data.extend_from_slice(acpi.as_slice());
    if let Some(bytes) = pci {
        data.extend_from_slice(bytes.as_slice());
    }
    data.extend_from_slice(arch.as_slice());
    assert(data@ =~= mmio@ + acpi@ + (match pci {
        Some(bytes) => bytes@,
        None => seq![],
    }) + arch@);
    data
}

/// The flags of the fixed table.
pub fn fadt_flags() -> (r: u32)
    ensures
        r == (1u32 << FADT_F_HW_REDUCED_ACPI) | (1u32 << FADT_F_PWR_BUTTON) | (1u32
            << FADT_F_SLP_BUTTON),
{
    (1u32 << FADT_F_HW_REDUCED_ACPI) | (1u32 << FADT_F_PWR_BUTTON) | (1u32 << FADT_F_SLP_BUTTON)
}

/// Whether `after` is an allocator `before` but for system memory.
pub open spec fn only_system_memory(before: ResourceAllocator, after: ResourceAllocator) -> bool {
    after == (ResourceAllocator { system_memory: after.system_memory, ..before })
}

/// Whether room was allocated for a table at an address, but guest memory does not have all of it.
/// The table is then written as far as guest memory reaches.
pub open spec fn table_outside(
    before: ResourceAllocator,
    after: ResourceAllocator,
    mem: GuestMemory,
    mem_after: GuestMemory,
    table: Seq<u8>,
    addr: u64,
) -> bool {
    &&& placed_first(
        before.system_memory,
        after.system_memory,
        addr as int,
        table.len() as int,
        1,
    )
    &&& !mem.has_range(addr as int, table.len() as int)
    &&& mem_after.written(mem, addr as int, table.take(mem.reach(addr as int, table.len()) as int))
}

/// What comes of placing a table in system memory: the answer is the address, if there is room and
/// guest memory has all of it.
pub open spec fn table_placed(
    before: ResourceAllocator,
    after: ResourceAllocator,
    mem: GuestMemory,
    mem_after: GuestMemory,
    table: Seq<u8>,
    r: Result<u64, AcpiError>,
) -> bool {
    let room = has_room(before.system_memory, table.len() as int, 1);
    &&& only_system_memory(before, after)
    &&& table.len() == 0 ==> r is Err && r->Err_0 == AcpiError::VmAllocator(
        AllocatorError::InvalidSize(0),
    ) && same_ranges(before.system_memory, after.system_memory)
    &&& table.len() > 0 && !room ==> r is Err && r->Err_0 == AcpiError::VmAllocator(
        AllocatorError::ResourceNotAvailable,
    ) && same_ranges(before.system_memory, after.system_memory)
    &&& table.len() > 0 && room && can_hand_out(before.system_memory) ==> !(r is Err && r->Err_0
        is VmAllocator)
    &&& match r {
        Ok(addr) => {
            &&& table.len() > 0
            &&& placed_first(
                before.system_memory,
                after.system_memory,
                addr as int,
                table.len() as int,
                1,
            )
            &&& mem.has_range(addr as int, table.len() as int)
            &&& mem_after.written(mem, addr as int, table)
        },
        Err(AcpiError::VmAllocator(_)) => mem_after == mem,
        Err(AcpiError::GuestMemory) => exists|addr: u64| #[trigger]
            table_outside(before, after, mem, mem_after, table, addr),
    }
}

/// Allocates room for a table in system memory and writes the table to it.
pub fn write_acpi_table(
    mem: &mut GuestMemory,
    resource_allocator: &mut ResourceAllocator,
    table: &Vec<u8>,
) -> (r: Result<u64, AcpiError>)
    requires
        old(mem).wf(),
    ensures
        final(mem).wf(),
        table_placed(
            *old(resource_allocator),
            *final(resource_allocator),
            *old(mem),
            *final(mem),
            table@,
            r,
        ),
{
    proof {
        lemma_one_is_power_of_two();
    }
    let addr: u64 = match address_allocate_first(
        &mut resource_allocator.system_memory,
        table.len() as u64,
        1,
    ) {
        Ok(addr) => addr,
        Err(e) => {
            return Err(AcpiError::VmAllocator(e));
        },
    };
    if !mem.write(addr, table.as_slice()) {
        assert(table_outside(
            *old(resource_allocator),
            *resource_allocator,
            *old(mem),
            *mem,
            table@,
            addr,
        ));
        return Err(AcpiError::GuestMemory);
    }
    proof {
        old(mem).lemma_reach(addr as int, table@.len(), table@.len());
        assert(table@.take(table@.len() as int) =~= table@);
    }
    Ok(addr)
}

/// One is a power of two.
proof fn lemma_one_is_power_of_two()
    ensures
        is_power_of_two(1),
{
    assert(1u64 & 0u64 == 0) by (bit_vector);
}

/// The step that follows one whose table is at an address.
pub open spec fn next_step(w: AcpiTableWriter, addr: u64) -> AcpiTableWriter {
    match w.step {
        AcpiStep::Dsdt => AcpiTableWriter { step: AcpiStep::Fadt { dsdt_addr: addr }, ..w },
        AcpiStep::Fadt { .. } => AcpiTableWriter { step: AcpiStep::Madt, fadt_addr: addr, ..w },
        AcpiStep::Madt => AcpiTableWriter {
            step: AcpiStep::Mcfg { pci_mmio_config_addr: PCI_MMCONFIG_START },
            madt_addr: addr,
            ..w
        },
        AcpiStep::Mcfg { .. } => AcpiTableWriter {
            step: AcpiStep::Xsdt { fadt_addr: w.fadt_addr, madt_addr: w.madt_addr },
            ..w
        },
        AcpiStep::Xsdt { .. } => AcpiTableWriter {
            step: AcpiStep::Rsdp { xsdt_addr: addr },
            ..w
        },
        AcpiStep::Rsdp { .. } => AcpiTableWriter { step: AcpiStep::Done, ..w },
        AcpiStep::Done => w,
    }
}

/// The tables lead from the pointer to each other: the list names the fixed table and the table of
/// the interrupt controllers, and the fixed table names the description of the devices.
pub proof fn law_tables_are_linked(
    w: AcpiTableWriter,
    dsdt: u64,
    fadt: u64,
    madt: u64,
    mcfg: u64,
    xsdt: u64,
)
    requires
        w.step == AcpiStep::Dsdt,
    ensures
        ({
            let at_fadt = next_step(w, dsdt);
            let at_xsdt = next_step(next_step(next_step(at_fadt, fadt), madt), mcfg);
            &&& at_fadt.step == (AcpiStep::Fadt { dsdt_addr: dsdt })
            &&& at_xsdt.step == (AcpiStep::Xsdt { fadt_addr: fadt, madt_addr: madt })
            &&& next_step(at_xsdt, xsdt).step == (AcpiStep::Rsdp { xsdt_addr: xsdt })
            &&& next_step(next_step(at_xsdt, xsdt), layout::RSDP_ADDR).step == AcpiStep::Done
        }),
{
}

impl AcpiTableWriter {
    /// Starts with the description of the devices.
    pub fn new() -> (r: AcpiTableWriter)
        ensures
            r.step == AcpiStep::Dsdt,
    {
        AcpiTableWriter { step: AcpiStep::Dsdt, fadt_addr: 0, madt_addr: 0 }
    }

    /// The identifier of the table that is to be made next.
    pub fn table_id(&self) -> (r: Option<&'static str>)
        ensures
            match self.step {
                AcpiStep::Dsdt => r is Some && r->Some_0@ == "FCVMDSDT"@,
                AcpiStep::Fadt { .. } => r is Some && r->Some_0@ == "FCVMFADT"@,
                AcpiStep::Madt => r is Some && r->Some_0@ == "FCVMMADT"@,
                AcpiStep::Mcfg { .. } => r is Some && r->Some_0@ == "FCMVMCFG"@,
                AcpiStep::Xsdt { .. } => r is Some && r->Some_0@ == "FCMVXSDT"@,
                _ => r is None,
            },
    {
        match self.step {
            AcpiStep::Dsdt => Some("FCVMDSDT"),
            AcpiStep::Fadt { .. } => Some("FCVMFADT"),
            AcpiStep::Madt => Some("FCVMMADT"),
            AcpiStep::Mcfg { .. } => Some("FCMVMCFG"),
            AcpiStep::Xsdt { .. } => Some("FCMVXSDT"),
            _ => None,
        }
    }

    /// Goes on to the next table.
    fn advance(&mut self, addr: u64)
        ensures
            *final(self) == next_step(*old(self), addr),
    {
        match self.step {
            AcpiStep::Dsdt => {
                self.step = AcpiStep::Fadt { dsdt_addr: addr };
            },
            AcpiStep::Fadt { .. } => {
                self.fadt_addr = addr;
                self.step = AcpiStep::Madt;
            },
            AcpiStep::Madt => {
                self.madt_addr = addr;
                self.step = AcpiStep::Mcfg { pci_mmio_config_addr: PCI_MMCONFIG_START };
            },
            AcpiStep::Mcfg { .. } => {
                self.step = AcpiStep::Xsdt {
                    fadt_addr: self.fadt_addr,
                    madt_addr: self.madt_addr,
                };
            },
            AcpiStep::Xsdt { .. } => {
                self.step = AcpiStep::Rsdp { xsdt_addr: addr };
            },
            AcpiStep::Rsdp { .. } => {
                self.step = AcpiStep::Done;
            },
            AcpiStep::Done => {},
        }
    }

    /// Takes the table that was asked for and puts it into guest memory: the pointer at its fixed
    /// address, any other where there is room.
    pub fn create_acpi_tables(
        &mut self,
        mem: &mut GuestMemory,
        resource_allocator: &mut ResourceAllocator,
        table: &Vec<u8>,
    ) -> (r: Result<(), AcpiError>)
        requires
            old(mem).wf(),
        ensures
            final(mem).wf(),
            only_system_memory(*old(resource_allocator), *final(resource_allocator)),
            r is Err ==> *final(self) == *old(self),
            match old(self).step {
                AcpiStep::Done => {
                    &&& r is Ok
                    &&& *final(self) == *old(self)
                    &&& *final(mem) == *old(mem)
                    &&& *final(resource_allocator) == *old(resource_allocator)
                },
                AcpiStep::Rsdp { .. } => {
                    &&& *final(resource_allocator) == *old(resource_allocator)
                    &&& r is Ok <==> old(mem).has_range(
                        layout::RSDP_ADDR as int,
                        table@.len() as int,
                    )
                    &&& r is Ok ==> final(mem).written(*old(mem), layout::RSDP_ADDR as int, table@)
                        && *final(self) == next_step(*old(self), layout::RSDP_ADDR)
                    &&& r is Err ==> r->Err_0 == AcpiError::GuestMemory && final(mem).written(
                        *old(mem),
                        layout::RSDP_ADDR as int,
                        table@.take(
                            old(mem).reach(layout::RSDP_ADDR as int, table@.len()) as int,
                        ),
                    )
                },
                _ => exists|placed: Result<u64, AcpiError>|
                    {
                        &&& #[trigger] table_placed(
                            *old(resource_allocator),
                            *final(resource_allocator),
                            *old(mem),
                            *final(mem),
                            table@,
                            placed,
                        )
                        &&& match placed {
                            Ok(addr) => r is Ok && *final(self) == next_step(*old(self), addr),
                            Err(e) => r is Err && r->Err_0 == e,
                        }
                    },
            },
    {
        match self.step {
            AcpiStep::Done => Ok(()),
            AcpiStep::Rsdp { .. } => {
                if !mem.write(layout::RSDP_ADDR, table.as_slice()) {
                    return Err(AcpiError::GuestMemory);
                }
                proof {
                    old(mem).lemma_reach(
                        layout::RSDP_ADDR as int,
                        table@.len(),
                        table@.len(),
                    );
                    assert(table@.take(table@.len() as int) =~= table@);
                }
                self.advance(layout::RSDP_ADDR);
                Ok(())
            },
            _ => {
                match write_acpi_table(mem, resource_allocator, table) {
                    Ok(addr) => {
                        self.advance(addr);
                        Ok(())
                    },
                    Err(e) => Err(e),
                }
            },
        }
    }
}

/// A table that was written is in guest memory as a whole, at addresses that were free and are not
/// any more; nothing else in memory changes. One that was not written for want of room leaves memory
/// as it was.
pub proof fn law_tables_are_in_memory(
    before: ResourceAllocator,
    after: ResourceAllocator,
    mem: GuestMemory,
    mem_after: GuestMemory,
    table: Seq<u8>,
    r: Result<u64, AcpiError>,
    a: int,
)
    requires
        apart(before.system_memory),
        table_placed(before, after, mem, mem_after, table, r),
    ensures
        r matches Ok(addr) ==> {
            let inside = addr <= a < addr + table.len();
            &&& forall|i: int|
                0 <= i < table.len() && mem.has(addr + i) ==> #[trigger] mem_after.at(addr + i)
                    == table[i]
            &&& mem.has(a) && !inside ==> mem_after.at(a) == mem.at(a)
            &&& can_stand(before.system_memory, addr as int, table.len() as int, 1)
            &&& can_stand(after.system_memory, a, 1, 1) <==> can_stand(
                before.system_memory,
                a,
                1,
                1,
            ) && !inside
        },
        r is Ok ==> table.len() > 0,
        r is Err && r->Err_0 is VmAllocator ==> mem_after == mem,
        !(exists|addr: int| #[trigger]
            can_stand(before.system_memory, addr, table.len() as int, 1)) ==> r is Err,
        after.mmio32_memory == before.mmio32_memory,
        after.mmio64_memory == before.mmio64_memory,
        after.past_mmio64_memory == before.past_mmio64_memory,
{
    if let Ok(addr) = r {
        let len = table.len() as int;
        law_blocks_never_overlap(before.system_memory, after.system_memory, addr as int, len, 1);
        law_placed_addresses_are_not_free(
            before.system_memory,
            after.system_memory,
            addr as int,
            len,
            1,
            a,
        );
        assert(addr as int % 1 == 0);
        assert(can_stand(before.system_memory, addr as int, len, 1));
    }
}

/// The tables come in one order: the one with the definitions, the fixed one, the one of
/// interrupts, the one of the bus, the list of tables, and the pointer to that list. None is left out.
pub proof fn law_tables_come_in_order(w: AcpiTableWriter, addr: u64)
    ensures
        ({
            let next = next_step(w, addr).step;
            &&& w.step is Dsdt <==> next is Fadt
            &&& w.step is Fadt <==> next is Madt
            &&& w.step is Madt <==> next is Mcfg
            &&& w.step is Mcfg <==> next is Xsdt
            &&& w.step is Xsdt <==> next is Rsdp
            &&& w.step is Rsdp || w.step is Done <==> next is Done
            &&& next matches AcpiStep::Mcfg { pci_mmio_config_addr } ==> pci_mmio_config_addr
                == 0xeec0_0000
        }),
{
}

} // verus!
