use std::collections::HashMap;

use vmm::arch::x86_64::memory::arch_memory_regions;
use vmm::arch::{arch_memory_regions_with_gap, host_page_size, BootProtocol, DeviceType};
use vmm::vmm_config::machine_config::HugePageConfig;
use vmm::vmm_config::snapshot::SnapshotType;
use vmm::vstate::dump::DumpStep;
use vmm::vstate::memory::{
    GuestMemoryError, GuestMemoryRegionState, GuestRegionMmapExt, GuestRegionType, MemoryError,
    SlotStep,
};
use vmm::vstate::memory_map::{
    anonymous, create, discard_method, memfd_backed, snapshot_file, DiscardMethod,
    GuestMemoryMmap, MmapRequest, RangeChunk,
};
use vmm::vstate::vm::{
    create_vm_step, mincore_bitmap, CreateStep, DirtyQuery, MsixVector, MsixVectorConfig, Route,
    SnapshotStep, VmCommon, VmError,
};

const PAGE: usize = 4096;

fn bitmap(size: usize) -> Option<vm_memory::bitmap::AtomicBitmap> {
    MmapRequest { start: 0, size, flags: 0, file_offset: None, track_dirty_pages: true }
        .dirty_bitmap()
}

fn layout(logged: bool) -> GuestMemoryMmap {
    let dirty = |size: usize| if logged { bitmap(size) } else { None };
    GuestMemoryMmap {
        regions: vec![
            GuestRegionMmapExt::dram_from_mmap_region(0, 4 * PAGE, dirty(4 * PAGE), 0),
            GuestRegionMmapExt::hotpluggable_from_mmap_region(
                4 * PAGE as u64,
                4 * PAGE,
                dirty(4 * PAGE),
                1,
                2 * PAGE,
            ),
        ],
    }
}

#[test]
fn memory_goes_round_the_device_gaps() {
    assert_eq!(arch_memory_regions(0x1000), vec![(0, 0x1000)]);
    let r = arch_memory_regions(0x1_0000_0000);
    assert_eq!(r, vec![(0, 0xc000_0000), (0x1_0000_0000, 0x4000_0000)]);
    let huge = arch_memory_regions(0x80_0000_0000);
    assert_eq!(huge.len(), 3);
    assert_eq!(huge[2].0, 0x80_0000_0000);
    let total: usize = huge.iter().map(|r| r.1).sum();
    assert_eq!(total, 0x80_0000_0000);
}

#[test]
fn a_region_is_split_at_a_gap() {
    let mut regions = Vec::new();
    assert_eq!(arch_memory_regions_with_gap(&mut regions, 0, 10, 4, 3), Some((7, 6)));
    assert_eq!(regions, vec![(0, 4)]);
    let mut regions = Vec::new();
    assert_eq!(arch_memory_regions_with_gap(&mut regions, 0, 4, 4, 3), None);
    assert_eq!(regions, vec![(0, 4)]);
}

#[test]
fn architecture_values_have_names() {
    assert_eq!(DeviceType::BootTimer.text(), "BootTimer");
    assert_eq!(DeviceType::Virtio(7).text(), "Virtio(7)");
    assert_eq!(BootProtocol::LinuxBoot.text(), "Linux 64-bit boot protocol");
    assert_eq!(BootProtocol::PvhBoot.text(), "PVH boot protocol");
    assert_eq!(host_page_size(4096), 4096);
}

#[test]
fn mappings_follow_each_other_in_the_file() {
    let (r, e) = create(&vec![(0, 0x1000), (0x8000, 0x2000)], 1, true, true);
    assert_eq!(e, None);
    assert_eq!(r[0].file_offset, Some(0));
    assert_eq!(r[1].file_offset, Some(0x1000));
    assert_eq!(r[0].flags, 0x4001);
    let (r, e) = create(&vec![(0, 0x1000), (1, i64::MAX as usize)], 1, true, false);
    assert_eq!(r.len(), 1);
    assert_eq!(e, Some(MemoryError::OffsetTooLarge));
    let (r, e) = create(&vec![(u64::MAX - 10, 0x1000)], 1, false, false);
    assert_eq!(r.len(), 1);
    assert_eq!(e, Some(MemoryError::VmMemoryError));
}

#[test]
fn memory_is_backed_in_three_ways() {
    let regions = vec![(0u64, 0x1000usize), (0x8000, 0x2000)];
    let (size, (r, e)) = memfd_backed(&regions, false, HugePageConfig::Regular.mmap_flags());
    assert_eq!((size, e), (0x3000, None));
    assert_eq!(r[0].flags & 1, 1);
    let (r, _) = anonymous(&regions, false, 0);
    assert_eq!(r[1].flags & 0x22, 0x22);
    assert_eq!(r[1].file_offset, None);
    let (r, _) = snapshot_file(&regions, Some(0x3000), true).unwrap();
    assert_eq!(r[1].file_offset, Some(0x1000));
    assert_eq!(r[1].flags & 2, 2);
    assert!(r[1].track_dirty_pages);
    assert!(matches!(
        snapshot_file(&regions, Some(0x2fff), true),
        Err(MemoryError::OffsetTooLarge)
    ));
    assert!(matches!(snapshot_file(&regions, None, true), Err(MemoryError::FileMetadata)));
}

#[test]
fn private_file_memory_is_mapped_anew() {
    assert!(matches!(discard_method(true, 2), DiscardMethod::MapAnonymous));
    assert!(matches!(discard_method(true, 1), DiscardMethod::Advise));
    assert!(matches!(discard_method(false, 2), DiscardMethod::Advise));
}

#[test]
fn a_region_is_divided_into_slots() {
    let r = GuestRegionMmapExt::hotpluggable_from_mmap_region(
        0x10_0000,
        4 * PAGE,
        None,
        5,
        2 * PAGE,
    );
    assert_eq!(r.slot_cnt(), 2);
    let s = r.mem_slot(6);
    assert_eq!((s.guest_addr, s.offset, s.len), (0x10_0000 + 2 * PAGE as u64, 2 * PAGE, 2 * PAGE));
    assert!(r.plugged_slots().is_empty());
    assert_eq!(r.slots().len(), 2);
    assert_eq!(r.slots_intersecting_range(0x10_0000 + 2 * PAGE as u64 - 1, 2).len(), 2);
    assert_eq!(r.slots_intersecting_range(0x10_0000, 2 * PAGE).len(), 1);
    assert!(r.slots_intersecting_range(0, PAGE).is_empty());
}

#[test]
fn slots_are_plugged_one_by_one() {
    let mut r =
        GuestRegionMmapExt::hotpluggable_from_mmap_region(0, 4 * PAGE, None, 5, 2 * PAGE);
    let s = r.mem_slot(5);
    let steps = r.update_slot(&s, true, 0x7000);
    assert_eq!(steps.len(), 2);
    assert_eq!(steps[0], SlotStep::Allow);
    assert!(matches!(steps[1], SlotStep::SetUserMemoryRegion(u) if u.memory_size == 2 * PAGE as u64));
    assert!(r.update_slot(&s, true, 0x7000).is_empty());
    assert_eq!(r.check_range_plugged(0, 2 * PAGE), Ok(()));
    assert_eq!(
        r.check_range_plugged(0, 2 * PAGE + 1),
        Err(GuestMemoryError::HostAddressNotAvailable)
    );
    let steps = r.update_slot(&s, false, 0x7000);
    assert!(matches!(steps[0], SlotStep::SetUserMemoryRegion(u) if u.memory_size == 0));
    assert_eq!(steps[1], SlotStep::Protect);
}

#[test]
fn a_described_region_comes_back() {
    let mut r =
        GuestRegionMmapExt::hotpluggable_from_mmap_region(0x4000, 4 * PAGE, None, 5, 2 * PAGE);
    let s = r.mem_slot(6);
    r.update_slot(&s, true, 0);
    let state = r.describe();
    assert_eq!(state.plugged, vec![false, true]);
    let back = GuestRegionMmapExt::from_state(&state, None, 5).unwrap();
    assert_eq!(back.slot_size, 2 * PAGE);
    assert_eq!(back.region_type, GuestRegionType::Hotpluggable);
    assert_eq!(back.describe().plugged, vec![false, true]);
}

#[test]
fn an_uneven_region_is_refused() {
    let state = |plugged: Vec<bool>| GuestMemoryRegionState {
        base_address: 0,
        size: 10,
        region_type: GuestRegionType::Hotpluggable,
        plugged,
    };
    assert!(matches!(
        GuestRegionMmapExt::from_state(&state(vec![]), None, 0),
        Err(MemoryError::ZeroSlots)
    ));
    assert!(matches!(
        GuestRegionMmapExt::from_state(&state(vec![true; 3]), None, 0),
        Err(MemoryError::Unaligned { region_size: 10, slot_count: 3 })
    ));
    assert!(GuestRegionMmapExt::from_state(&state(vec![true; 5]), None, 0).is_ok());
}

#[test]
fn a_range_is_walked_region_by_region() {
    let m = layout(false);
    assert_eq!(m.find_region(4 * PAGE as u64), Some(1));
    assert_eq!(m.find_region(8 * PAGE as u64), None);
    let (chunks, r) = m.try_for_each_region_in_range(4 * PAGE as u64 - 2, 5);
    assert_eq!(r, Ok(()));
    assert_eq!(
        chunks,
        vec![
            RangeChunk { region: 0, offset: 4 * PAGE as u64 - 2, len: 2 },
            RangeChunk { region: 1, offset: 0, len: 3 }
        ]
    );
    let (chunks, r) = m.try_for_each_region_in_range(8 * PAGE as u64 - 2, 5);
    assert_eq!(chunks.len(), 1);
    assert_eq!(r, Err(GuestMemoryError::InvalidGuestAddress(8 * PAGE as u64)));
}

#[test]
fn only_plugged_memory_may_be_used() {
    let mut m = layout(false);
    assert_eq!(m.check_range_plugged(0, 4 * PAGE), Ok(()));
    assert_eq!(
        m.check_range_plugged(4 * PAGE as u64 - 1, 2),
        Err(GuestMemoryError::HostAddressNotAvailable)
    );
    let s = m.regions[1].mem_slot(1);
    m.regions[1].update_slot(&s, true, 0);
    assert_eq!(m.check_range_plugged(4 * PAGE as u64 - 1, 2), Ok(()));
    assert_eq!(m.describe().regions.len(), 2);
    assert_eq!(m.describe().regions()[1], (4 * PAGE as u64, 4 * PAGE));
}

#[test]
fn written_pages_are_dumped() {
    let mut m = layout(true);
    m.mark_dirty(PAGE as u64 + 5, 1);
    let clean: HashMap<u32, Vec<u64>> =
        [(0, vec![0]), (1, vec![0]), (2, vec![0])].into_iter().collect();
    let (steps, e) = m.dump_dirty(&clean, PAGE);
    assert_eq!(e, None);
    assert!(steps.contains(&DumpStep::Write { region: 0, offset: PAGE, len: PAGE }));
    m.reset_dirty();
    let (steps, _) = m.dump_dirty(&clean, PAGE);
    assert!(!steps.iter().any(|s| matches!(s, DumpStep::Write { .. })));
    let kvm: HashMap<u32, Vec<u64>> =
        [(0, vec![0b1010]), (1, vec![0]), (2, vec![0])].into_iter().collect();
    m.store_dirty_bitmap(&kvm, PAGE);
    let (steps, _) = m.dump_dirty(&clean, PAGE);
    assert!(steps.contains(&DumpStep::Write { region: 0, offset: PAGE, len: PAGE }));
    assert!(steps.contains(&DumpStep::Write { region: 0, offset: 3 * PAGE, len: PAGE }));
}

#[test]
fn a_failed_dump_is_remembered() {
    let mut m = layout(true);
    let clean: HashMap<u32, Vec<u64>> =
        [(0, vec![0]), (1, vec![0]), (2, vec![0])].into_iter().collect();
    let kvm: HashMap<u32, Vec<u64>> =
        [(0, vec![0b100]), (1, vec![0]), (2, vec![0])].into_iter().collect();
    m.finish_dump_dirty(false, &kvm, PAGE);
    let page = DumpStep::Write { region: 0, offset: 2 * PAGE, len: PAGE };
    assert!(m.dump_dirty(&clean, PAGE).0.contains(&page));
    m.finish_dump_dirty(true, &kvm, PAGE);
    assert!(!m.dump_dirty(&clean, PAGE).0.contains(&page));
}

#[test]
fn a_bitmap_fits_its_slot() {
    let m = layout(false);
    let none: HashMap<u32, Vec<u64>> = HashMap::new();
    assert_eq!(m.dump_dirty(&none, PAGE).1, Some(MemoryError::DirtyBitmapNotFound(0)));
    let large: HashMap<u32, Vec<u64>> = [(0, vec![0, 0])].into_iter().collect();
    assert_eq!(m.dump_dirty(&large, PAGE).1, Some(MemoryError::DirtyBitmapTooLarge));
    let small: HashMap<u32, Vec<u64>> = [(0, vec![])].into_iter().collect();
    assert_eq!(m.dump_dirty(&small, PAGE).1, Some(MemoryError::DirtyBitmapTooSmall));
}

#[test]
fn all_plugged_memory_is_dumped() {
    let m = layout(false);
    assert_eq!(
        m.dump(),
        vec![
            DumpStep::Write { region: 0, offset: 0, len: 4 * PAGE },
            DumpStep::Skip { len: 2 * PAGE },
            DumpStep::Skip { len: 2 * PAGE }
        ]
    );
    assert_eq!(m.slots().len(), 3);
}

#[test]
fn a_machine_is_created_again_after_an_interrupt() {
    assert!(matches!(create_vm_step(1, None), CreateStep::Created));
    assert!(matches!(create_vm_step(1, Some(4)), CreateStep::Retry(1)));
    assert!(matches!(create_vm_step(3, Some(4)), CreateStep::Retry(4)));
    assert!(matches!(create_vm_step(5, Some(4)), CreateStep::Fail(VmError::CreateVm(4))));
    assert!(matches!(create_vm_step(1, Some(22)), CreateStep::Fail(VmError::CreateVm(22))));
}

#[test]
fn memory_slots_are_reserved() {
    let mut vm = VmCommon::create_common(3);
    assert_eq!(vm.next_kvm_slot(2), Some(0));
    assert_eq!(vm.next_kvm_slot(1), Some(2));
    assert_eq!(vm.next_kvm_slot(1), None);
    let mut vm = VmCommon::create_common(1);
    let r = vm.register_dram_memory_region(0, PAGE, None).unwrap();
    assert_eq!(r.slot_from, 0);
    assert!(matches!(
        vm.register_dram_memory_region(PAGE as u64, PAGE, None),
        Err(VmError::NotEnoughMemorySlots(1))
    ));
}

#[test]
fn overlapping_regions_are_refused() {
    let mut vm = VmCommon::create_common(8);
    let a = vm.register_dram_memory_region(0, 4 * PAGE, None).unwrap();
    let steps = vm.register_memory_region(&a, 0x7000_0000).unwrap();
    assert_eq!(steps.len(), 1);
    vm.insert_region(a);
    let b = vm.register_dram_memory_region(PAGE as u64, PAGE, None).unwrap();
    assert!(matches!(
        vm.register_memory_region(&b, 0x8000_0000),
        Err(VmError::InsertRegion)
    ));
}

#[test]
fn a_restored_region_takes_as_many_slots() {
    let mut vm = VmCommon::create_common(8);
    let state = GuestMemoryRegionState {
        base_address: 0x1_0000,
        size: 4 * PAGE,
        region_type: GuestRegionType::Hotpluggable,
        plugged: vec![true, false],
    };
    let r = vm.restore_memory_region(&state, None).unwrap();
    assert_eq!((r.slot_from, r.slot_cnt()), (0, 2));
    assert_eq!(vm.next_kvm_slot, 2);
    let bad = GuestMemoryRegionState { plugged: vec![true; 3], ..state };
    assert!(matches!(
        vm.restore_memory_region(&bad, None),
        Err(VmError::Memory(MemoryError::Unaligned { .. }))
    ));
}

#[test]
fn pluggable_memory_is_logged_when_dirty_pages_are_recorded() {
    let mut vm = VmCommon::create_common(8);
    let r = vm
        .register_hotpluggable_memory_region(0x1_0000, 4 * PAGE, bitmap(4 * PAGE), 2 * PAGE)
        .unwrap();
    assert!(r.mem_slot(0).logged);
    vm.insert_region(r);
    let queries = vm.get_dirty_bitmap();
    assert!(queries.iter().all(|q| matches!(q, DirtyQuery::DirtyLog { .. })));
}

#[test]
fn interrupts_are_routed() {
    let mut vm = VmCommon::create_common(1);
    vm.register_irq(7);
    let vectors = vm.create_msix_group(2).unwrap();
    assert_eq!(vectors[0].gsi, 24);
    assert_eq!(vectors[1].gsi, 25);
    let v = MsixVector { gsi: 24, enabled: true };
    let config = MsixVectorConfig { high_addr: 1, low_addr: 2, data: 3, devid: 4 };
    vm.register_msi(&v, false, config, true);
    let routes = vm.set_gsi_routes();
    assert_eq!(routes.len(), 2);
    assert!(routes.iter().any(|r| r.gsi == 7
        && matches!(r.route, Route::Irqchip { irqchip: 2, pin: 7 })));
    assert!(routes.iter().any(|r| r.gsi == 24
        && matches!(
            r.route,
            Route::Msi { address_lo: 2, address_hi: 1, data: 3, devid: Some(4) }
        )));
    vm.register_msi(&v, true, config, false);
    assert_eq!(vm.set_gsi_routes().len(), 1);
}

#[test]
fn a_diff_is_written_over_the_last_snapshot() {
    let mut vm = VmCommon::create_common(4);
    let r = vm.register_dram_memory_region(0, 0x20_0000, None).unwrap();
    vm.insert_region(r);
    let full = vm.snapshot_memory_to_file(Some(5), SnapshotType::Full);
    assert_eq!(full[0], SnapshotStep::Truncate);
    assert!(full.contains(&SnapshotStep::Dump));
    let same = vm.snapshot_memory_to_file(Some(0x20_0000), SnapshotType::Diff);
    assert!(!same.contains(&SnapshotStep::Truncate));
    assert!(same.contains(&SnapshotStep::DumpDirty));
    assert_eq!(same.last(), Some(&SnapshotStep::SyncAll));
}

#[test]
fn resident_pages_are_dirty() {
    assert_eq!(mincore_bitmap(&vec![1, 0, 1]), vec![0b101]);
    let mut pages = vec![0u8; 65];
    pages[64] = 1;
    assert_eq!(mincore_bitmap(&pages), vec![0, 1]);
    assert!(mincore_bitmap(&vec![]).is_empty());
}
