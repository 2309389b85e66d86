use linux_loader::cmdline::Cmdline;
use vmm::acpi::{fadt_flags, write_acpi_table, AcpiError, AcpiStep, AcpiTableWriter, PCI_MMCONFIG_START};
use vmm::arch::layout;
use vmm::device_manager::mmio::{MMIODeviceInfo, MMIODeviceManager, MmioError, MMIO_LEN};
use vmm::devices::virtio::device::VirtioDeviceType;
use vmm::builder::{allocate_virtio_mem_address, setup_pvtime, StartMicrovmError};
use vmm::vstate::guest_memory::GuestMemory;
use vmm::vstate::resources::{AllocatorError, IdAllocator, ResourceAllocator};

#[test]
fn ids_are_handed_out_from_the_lowest() {
    let mut ids = IdAllocator::new(5, 8).unwrap();
    assert_eq!(ids.allocate_id(), Ok(5));
    assert_eq!(ids.allocate_id(), Ok(6));
    assert_eq!(ids.free_id(5), Ok(5));
    assert_eq!(ids.allocate_id(), Ok(5));
    assert_eq!(ids.allocate_id(), Ok(7));
    assert_eq!(ids.allocate_id(), Ok(8));
    assert_eq!(ids.allocate_id(), Err(AllocatorError::ResourceNotAvailable));
}

#[test]
fn ids_outside_of_the_range_are_refused() {
    let mut ids = IdAllocator::new(5, 8).unwrap();
    assert_eq!(ids.allocate_id_at(4), Err(AllocatorError::OutOfRange(4)));
    assert_eq!(ids.allocate_id_at(9), Err(AllocatorError::OutOfRange(9)));
    assert_eq!(ids.free_id(9), Err(AllocatorError::OutOfRange(9)));
    assert_eq!(ids.free_id(6), Err(AllocatorError::NeverAllocated(6)));
    assert_eq!(ids.allocate_id_at(6), Ok(6));
    assert!(ids.is_allocated(6));
    assert!(!ids.is_allocated(7));
    assert_eq!(ids.allocate_id_at(6), Err(AllocatorError::ResourceNotAvailable));
}

#[test]
fn an_empty_range_of_ids_is_refused() {
    assert!(matches!(IdAllocator::new(3, 2), Err(AllocatorError::InvalidRange(3, 2))));
}

#[test]
fn legacy_lines_run_out_as_a_whole() {
    let mut r = ResourceAllocator::new();
    assert_eq!(r.allocate_gsi_legacy(2), Ok(vec![5, 6]));
    assert_eq!(r.allocate_gsi_legacy(18), Err(AllocatorError::ResourceNotAvailable));
    // A failed request leaves everything free.
    assert_eq!(r.allocate_gsi_legacy(17).unwrap().len(), 17);
    assert_eq!(r.allocate_gsi_legacy(1), Err(AllocatorError::ResourceNotAvailable));
}

#[test]
fn message_lines_start_behind_the_legacy_lines() {
    let mut r = ResourceAllocator::new();
    assert_eq!(r.allocate_gsi_msi(3), Ok(vec![24, 25, 26]));
}

#[test]
fn devices_get_memory_and_a_line() {
    let mut r = ResourceAllocator::new();
    let a = MMIODeviceManager::allocate_mmio_resources(&mut r, 1).unwrap();
    assert_eq!(a.addr, layout::MEM_32BIT_DEVICES_START);
    assert_eq!(a.len, MMIO_LEN);
    assert_eq!(a.gsi, Some(5));
    let b = MMIODeviceManager::allocate_mmio_resources(&mut r, 1).unwrap();
    assert_eq!(b.addr, layout::MEM_32BIT_DEVICES_START + MMIO_LEN);
    assert_eq!(b.gsi, Some(6));
    let c = MMIODeviceManager::allocate_mmio_resources(&mut r, 0).unwrap();
    assert_eq!(c.gsi, None);
    assert!(matches!(
        MMIODeviceManager::allocate_mmio_resources(&mut r, 2),
        Err(MmioError::InvalidIrqConfig)
    ));
}

#[test]
fn a_restored_allocator_remembers_addresses() {
    let mut r = ResourceAllocator::new();
    let a = MMIODeviceManager::allocate_mmio_resources(&mut r, 1).unwrap();
    let state = r.save();
    let mut back = ResourceAllocator::restore(&state);
    let b = MMIODeviceManager::allocate_mmio_resources(&mut back, 1).unwrap();
    // The address stays taken, the line is free again.
    assert_ne!(a.addr, b.addr);
    assert_eq!(b.addr, a.addr + MMIO_LEN);
    assert_eq!(b.gsi, a.gsi);
}

#[test]
fn a_virtio_device_is_announced_to_the_kernel() {
    let mut r = ResourceAllocator::new();
    let mut cmdline = Cmdline::new(4096).unwrap();
    let mut manager = MMIODeviceManager::new();
    let device = manager
        .register_mmio_virtio_for_boot(
            &mut r,
            &mut cmdline,
            VirtioDeviceType::Block,
            String::from("root"),
        )
        .unwrap();
    assert_eq!(device.resources.gsi, Some(5));
    let text = cmdline.as_cstring().unwrap();
    assert_eq!(text.to_str().unwrap(), "virtio_mmio.device=4K@0xc0001000:5");
    assert_eq!(manager.dsdt_data.len(), 1);
    assert_eq!(manager.dsdt_data[0].dev_id, 0);
    assert_eq!(manager.dsdt_data[0].gsi, 5);
    let registration = MMIODeviceManager::registration(&device, 2).unwrap();
    assert_eq!(registration.io_events.len(), 2);
    assert_eq!(registration.io_events[1].addr, 0xc000_1050);
    assert_eq!(registration.io_events[1].datamatch, 1);
    assert!(manager.get_virtio_device(VirtioDeviceType::Block, "root").is_none());
    manager.register_mmio_virtio(device);
    assert!(manager.get_virtio_device(VirtioDeviceType::Block, "root").is_some());
    assert!(manager.get_virtio_device(VirtioDeviceType::Net, "root").is_none());
    assert!(manager.get_virtio_device(VirtioDeviceType::Block, "other").is_none());
}

#[test]
fn the_boot_timer_has_no_line() {
    let mut manager = MMIODeviceManager::new();
    let info = manager.register_mmio_boot_timer();
    assert_eq!(info.addr, layout::BOOT_DEVICE_MEM_START);
    assert_eq!(info.gsi, None);
    assert_eq!(manager.boot_timer, Some(info));
}

#[test]
fn the_serial_port_keeps_its_line_when_restored() {
    let mut r = ResourceAllocator::new();
    let mut manager = MMIODeviceManager::new();
    let info = manager.register_mmio_serial(&mut r, 0x4000_2000, None).unwrap();
    assert_eq!(info, MMIODeviceInfo { addr: 0x4000_2000, len: MMIO_LEN, gsi: Some(5) });
    let mut fresh = ResourceAllocator::new();
    let mut other = MMIODeviceManager::new();
    let kept = MMIODeviceInfo { addr: 0x4000_2000, len: MMIO_LEN, gsi: Some(7) };
    assert_eq!(other.register_mmio_serial(&mut fresh, 0, Some(kept)), Ok(kept));
    assert_eq!(
        other.register_mmio_rtc(&mut fresh, 0, Some(kept)),
        Err(MmioError::Allocator(AllocatorError::ResourceNotAvailable))
    );
    let lineless = MMIODeviceInfo { addr: 0, len: MMIO_LEN, gsi: None };
    assert_eq!(
        other.register_mmio_rtc(&mut fresh, 0, Some(lineless)),
        Err(MmioError::InvalidIrqConfig)
    );
    assert_eq!(other.rtc, None);
}

#[test]
fn the_early_console_is_named_by_its_address() {
    let mut r = ResourceAllocator::new();
    let mut manager = MMIODeviceManager::new();
    manager.register_mmio_serial(&mut r, 0x4000_2000, None).unwrap();
    let mut cmdline = Cmdline::new(4096).unwrap();
    manager.add_mmio_serial_to_cmdline(&mut cmdline).unwrap();
    let text = cmdline.as_cstring().unwrap();
    assert_eq!(text.to_str().unwrap(), "earlycon=uart,mmio,0x40002000");

    let mut low = MMIODeviceManager::new();
    low.register_mmio_serial(&mut r, 0x3f8, None).unwrap();
    let mut padded = Cmdline::new(4096).unwrap();
    low.add_mmio_serial_to_cmdline(&mut padded).unwrap();
    let text = padded.as_cstring().unwrap();
    assert_eq!(text.to_str().unwrap(), "earlycon=uart,mmio,0x000003f8");
}

#[test]
fn a_full_command_line_takes_no_device() {
    let mut r = ResourceAllocator::new();
    let mut manager = MMIODeviceManager::new();
    manager.register_mmio_serial(&mut r, 0x4000_2000, None).unwrap();
    let mut cmdline = Cmdline::new(8).unwrap();
    assert!(matches!(
        manager.add_mmio_serial_to_cmdline(&mut cmdline),
        Err(MmioError::Cmdline(_))
    ));
}

#[test]
fn pluggable_memory_is_placed_behind_the_devices() {
    let mut r = ResourceAllocator::new();
    assert_eq!(
        allocate_virtio_mem_address(&mut r, 1024).unwrap(),
        layout::FIRST_ADDR_PAST_64BITS_MMIO
    );
    assert!(matches!(
        allocate_virtio_mem_address(&mut r, 0x1000_0000),
        Err(StartMicrovmError::AllocateResources(_))
    ));
}

fn table_memory() -> GuestMemory {
    let mut mem = GuestMemory::empty();
    assert!(mem.add_region(layout::SYSTEM_MEM_START, vec![0; 0x5_0000]));
    mem
}

#[test]
fn tables_follow_each_other_in_system_memory() {
    let mut mem = table_memory();
    let mut r = ResourceAllocator::new();
    let a = write_acpi_table(&mut mem, &mut r, &vec![1, 2, 3]).unwrap();
    let b = write_acpi_table(&mut mem, &mut r, &vec![4, 5]).unwrap();
    assert_eq!(a, layout::SYSTEM_MEM_START);
    assert_eq!(b, a + 3);
    assert_eq!(mem.read(a, 5), Some(vec![1, 2, 3, 4, 5]));
}

#[test]
fn an_empty_table_is_refused() {
    let mut mem = table_memory();
    let mut r = ResourceAllocator::new();
    assert_eq!(
        write_acpi_table(&mut mem, &mut r, &Vec::new()),
        Err(AcpiError::VmAllocator(AllocatorError::InvalidSize(0)))
    );
}

#[test]
fn a_table_outside_of_guest_memory_is_refused() {
    let mut mem = GuestMemory::empty();
    let mut r = ResourceAllocator::new();
    assert_eq!(write_acpi_table(&mut mem, &mut r, &vec![1]), Err(AcpiError::GuestMemory));
}

#[test]
fn a_table_larger_than_system_memory_is_refused() {
    let mut mem = table_memory();
    let mut r = ResourceAllocator::new();
    assert_eq!(
        write_acpi_table(&mut mem, &mut r, &vec![0; 0x5_0000]),
        Err(AcpiError::VmAllocator(AllocatorError::ResourceNotAvailable))
    );
}

#[test]
fn tables_point_to_each_other() {
    let mut mem = table_memory();
    let mut r = ResourceAllocator::new();
    let mut w = AcpiTableWriter::new();
    assert_eq!(w.table_id(), Some("FCVMDSDT"));
    w.create_acpi_tables(&mut mem, &mut r, &vec![0; 10]).unwrap();
    let base = layout::SYSTEM_MEM_START;
    assert_eq!(w.step, AcpiStep::Fadt { dsdt_addr: base });
    w.create_acpi_tables(&mut mem, &mut r, &vec![0; 20]).unwrap();
    assert_eq!(w.step, AcpiStep::Madt);
    w.create_acpi_tables(&mut mem, &mut r, &vec![0; 30]).unwrap();
    assert_eq!(w.step, AcpiStep::Mcfg { pci_mmio_config_addr: PCI_MMCONFIG_START });
    w.create_acpi_tables(&mut mem, &mut r, &vec![0; 40]).unwrap();
    assert_eq!(
        w.step,
        AcpiStep::Xsdt { fadt_addr: base + 10, madt_addr: base + 30 }
    );
    assert_eq!(w.table_id(), Some("FCMVXSDT"));
    w.create_acpi_tables(&mut mem, &mut r, &vec![0; 50]).unwrap();
    assert_eq!(w.step, AcpiStep::Rsdp { xsdt_addr: base + 100 });
    assert_eq!(w.table_id(), None);
    w.create_acpi_tables(&mut mem, &mut r, &vec![7; 36]).unwrap();
    assert_eq!(w.step, AcpiStep::Done);
    assert_eq!(mem.read(layout::RSDP_ADDR, 36), Some(vec![7; 36]));
}

#[test]
fn the_fixed_table_has_three_flags() {
    assert_eq!(fadt_flags(), 0x10_0030);
}

#[test]
fn stolen_time_is_recorded_at_the_end_of_system_memory() {
    let mut r = ResourceAllocator::new();
    let end = layout::SYSTEM_MEM_START + layout::SYSTEM_MEM_SIZE;
    assert_eq!(setup_pvtime(&mut r, 2), Ok(vec![end - 128, end - 64]));
    assert_eq!(setup_pvtime(&mut r, 1), Ok(vec![end - 192]));
    assert_eq!(
        setup_pvtime(&mut r, 0),
        Err(StartMicrovmError::AllocateResources(AllocatorError::InvalidSize(0)))
    );
    assert_eq!(
        setup_pvtime(&mut r, 0x1_0000),
        Err(StartMicrovmError::AllocateResources(AllocatorError::ResourceNotAvailable))
    );
}
