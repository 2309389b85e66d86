//! Layout of the guest physical address space on x86_64.

use vstd::prelude::*;

verus! {

/// First usable GSI for legacy interrupts.
pub const GSI_LEGACY_START: u32 = 5;

/// Last usable GSI for legacy interrupts.
pub const GSI_LEGACY_END: u32 = 23;

/// First usable GSI for message signalled interrupts.
pub const GSI_MSI_START: u32 = 24;

/// Last usable GSI for message signalled interrupts.
pub const GSI_MSI_END: u32 = 4095;

/// First address past the 32-bit address space.
pub const FIRST_ADDR_PAST_32BITS: u64 = 0x1_0000_0000;

/// Start of the MMIO gap below 4 GiB.
pub const MMIO32_MEM_START: u64 = 0xc000_0000;

/// Size of the MMIO gap below 4 GiB.
pub const MMIO32_MEM_SIZE: u64 = 0x4000_0000;

/// Address of the boot timer device, the first page of the 32-bit MMIO gap.
pub const BOOT_DEVICE_MEM_START: u64 = 0xc000_0000;

/// Start of the memory for devices in the 32-bit MMIO gap.
pub const MEM_32BIT_DEVICES_START: u64 = 0xc000_1000;

/// Size of the memory for devices in the 32-bit MMIO gap.
pub const MEM_32BIT_DEVICES_SIZE: u64 = 0x2ebf_f000;

/// Start of the 64-bit MMIO area.
pub const MEM_64BIT_DEVICES_START: u64 = 0x40_0000_0000;

/// Size of the 64-bit MMIO area.
pub const MEM_64BIT_DEVICES_SIZE: u64 = 0x40_0000_0000;

/// First address past the 64-bit MMIO area.
pub const FIRST_ADDR_PAST_64BITS_MMIO: u64 = 0x80_0000_0000;

/// Size of the area past the 64-bit MMIO area.
pub const PAST_64BITS_MMIO_SIZE: u64 = 0x80_0000_0000;

/// Start of the memory reserved for system data such as ACPI tables.
pub const SYSTEM_MEM_START: u64 = 0x9fc00;

/// Size of the memory reserved for system data.
pub const SYSTEM_MEM_SIZE: u64 = 0x4_0400;

/// Address of the ACPI root system description pointer.
pub const RSDP_ADDR: u64 = 0xe_0000;

} // verus!
