use vmm::devices::virtio::device::{ActivateError, VirtioDeviceType, VirtioInterruptType};
use vmm::devices::virtio::pmem::device::{
    ConfigSpace, GuestPmemRegion, KvmMemSlot, MmapPlan, Pmem, PmemError, PmemMmap, ALIGNMENT,
};
use vmm::devices::virtio::pmem::persist::PmemState;
use vmm::devices::virtio::queue::{Descriptor, DescriptorChain, Queue};
use vmm::devices::virtio::rng::device::Entropy;
use vmm::devices::virtio::rng::persist::EntropyState;
use vmm::devices::virtio::transport::mmio::{
    DeviceView, IrqTrigger, IrqType, MmioAction, MmioTransport, QueueConfig,
};
use vmm::devices::virtio::vsock::persist::{
    VsockBackendState, VsockUdsConstructorArgs, VsockUnixBackend,
};
use vmm::rate_limiter::{RateLimiter, TokenBucket};
use vmm::vmm_config::pmem::PmemConfig;
use vmm::vstate::guest_memory::GuestMemory;
use vmm::vstate::resources::ResourceAllocator;

fn memory() -> GuestMemory {
    let mut mem = GuestMemory::empty();
    assert!(mem.add_region(0, vec![0; 0x4_0000]));
    mem
}

fn desc(addr: u64, len: u32, write_only: bool) -> Descriptor {
    Descriptor { addr, len, write_only }
}

#[test]
fn random_bytes_reach_the_guest() {
    let mut mem = memory();
    let mut e = Entropy::new(RateLimiter::unlimited());
    e.activated = true;
    e.queue.notify = true;
    e.queue.avail.push(DescriptorChain {
        index: 4,
        head: desc(0x100, 64, true),
        rest: vec![desc(0x200, 64, true)],
        cut_off: false,
    });
    assert_eq!(e.process_entropy_queue(&mut mem), Ok(true));
    assert_eq!(e.queue.used[0].id, 4);
    assert_eq!(e.queue.used[0].len, 128);
    assert_ne!(mem.read(0x100, 64), Some(vec![0; 64]));
    assert_ne!(mem.read(0x200, 64), Some(vec![0; 64]));
    assert_ne!(mem.read(0x100, 64), mem.read(0x200, 64));
}

#[test]
fn a_readable_entropy_buffer_gets_nothing() {
    let mut mem = memory();
    let mut e = Entropy::new(RateLimiter::unlimited());
    e.activated = true;
    e.queue.avail.push(DescriptorChain {
        index: 4,
        head: desc(0x100, 64, false),
        rest: Vec::new(),
        cut_off: false,
    });
    assert!(e.process_entropy_queue(&mut mem).is_ok());
    assert_eq!(e.queue.used[0].len, 0);
}

#[test]
fn entropy_is_limited() {
    let mut mem = memory();
    let mut e = Entropy::new(RateLimiter {
        bandwidth: Some(TokenBucket {
            size: 100,
            one_time_burst: 0,
            budget: 10,
            initial_one_time_burst: 0,
            refill_time: 1000,
        }),
        ops: None,
        timer_active: false,
    });
    e.activated = true;
    e.queue.avail.push(DescriptorChain {
        index: 4,
        head: desc(0x100, 64, true),
        rest: Vec::new(),
        cut_off: false,
    });
    assert_eq!(e.process_entropy_queue(&mut mem), Ok(false));
    assert_eq!(e.queue.next_avail, 0);
    assert!(!e.process_entropy_queue_event(true));
    assert!(!e.process_rate_limiter_event(0));
    assert!(e.process_rate_limiter_event(1));
    assert!(e.process_entropy_queue_event(true));
    assert!(!e.process_entropy_queue_event(false));
}

#[test]
fn handed_in_bytes_are_written_in_order() {
    let mut mem = memory();
    let mut e = Entropy::new(RateLimiter::unlimited());
    let c = DescriptorChain { index: 4, head: desc(0x100, 3, true), rest: Vec::new(), cut_off: false };
    e.buffer.load_descriptor_chain(&mem, &c).unwrap();
    assert_eq!(e.serve(&mut mem, Some(&[7, 8, 9])).ok(), Some(3));
    assert_eq!(mem.read(0x100, 3), Some(vec![7, 8, 9]));
    assert!(e.serve(&mut mem, None).is_err());
}

#[test]
fn a_saved_entropy_device_comes_back() {
    let mut e = Entropy::new(RateLimiter::unlimited());
    e.acked_features = e.avail_features;
    let back = EntropyState::save(&e).restore(Queue::new(256));
    assert_eq!(back.acked_features, e.acked_features);
    assert_eq!(back.avail_features, e.avail_features);
}

fn pmem(resources: &mut ResourceAllocator) -> Pmem {
    let plan = MmapPlan::new(0x1000, false).unwrap();
    let mmap = PmemMmap::new(&plan, Ok(0x7000_0000), Ok(0x7000_0000)).unwrap();
    Pmem::new_with_queues(
        resources,
        Some(3),
        mmap,
        PmemConfig {
            id: String::from("p"),
            path_on_host: String::from("/p"),
            root_device: false,
            read_only: false,
            rate_limiter: None,
        },
        Queue::new(256),
        0,
        None,
    )
    .unwrap()
    .0
}

#[test]
fn a_file_is_mapped_in_full_blocks() {
    let p = MmapPlan::new(0x1000, false).unwrap();
    assert_eq!(p.mmap_len, ALIGNMENT);
    assert!(p.over.is_some());
    assert!(!p.base.of_file);
    let p = MmapPlan::new(ALIGNMENT, true).unwrap();
    assert_eq!(p.mmap_len, ALIGNMENT);
    assert!(p.over.is_none());
    assert!(p.base.of_file);
    assert_eq!(p.base.prot, 1);
    assert!(matches!(MmapPlan::new(0, false), Err(PmemError::BackingFileZeroSize)));
}

#[test]
fn a_failed_mapping_is_reported() {
    let p = MmapPlan::new(0x1000, false).unwrap();
    assert!(matches!(PmemMmap::new(&p, Err(12), Ok(0)), Err(PmemError::BackingFile(12))));
    assert!(matches!(PmemMmap::new(&p, Ok(1), Err(13)), Err(PmemError::BackingFile(13))));
}

#[test]
fn persistent_memory_is_aligned() {
    let mut r = ResourceAllocator::new();
    let a = GuestPmemRegion::new(&mut r, ALIGNMENT).unwrap();
    let b = GuestPmemRegion::new(&mut r, ALIGNMENT).unwrap();
    assert_eq!(a.config_space.start % ALIGNMENT, 0);
    assert_eq!(b.config_space.start, a.config_space.start + ALIGNMENT);
    let start = a.config_space.start;
    a.release(&mut r);
    assert_eq!(GuestPmemRegion::new(&mut r, ALIGNMENT).unwrap().config_space.start, start);
    assert!(matches!(
        GuestPmemRegion::new(&mut r, 1 << 50),
        Err(PmemError::AllocationFailed)
    ));
}

#[test]
fn memory_slots_can_run_out() {
    assert!(matches!(
        KvmMemSlot::new(None, 0, 1, 0, 0),
        Err(PmemError::NoKvmSlotAvailable)
    ));
    let (slot, region) = KvmMemSlot::new(Some(4), 0x1000, 0x2000, 0x3000, 2).unwrap();
    assert_eq!((region.slot, region.guest_phys_addr, region.memory_size), (4, 0x1000, 0x2000));
    assert_eq!(slot.release().memory_size, 0);
}

#[test]
fn a_flush_is_answered() {
    let mut mem = memory();
    assert!(mem.write(0x104, &[1, 1, 1, 1]));
    let c = DescriptorChain {
        index: 0,
        head: desc(0x100, 4, false),
        rest: vec![desc(0x104, 4, true)],
        cut_off: false,
    };
    assert_eq!(Pmem::process_chain(&c, &mut mem, true), Ok(()));
    assert_eq!(mem.read_u32(0x104), Some(0));
    assert_eq!(Pmem::process_chain(&c, &mut mem, false), Ok(()));
    assert_eq!(mem.read_u32(0x104), Some(0xffff_ffff));
}

#[test]
fn malformed_flushes_are_refused() {
    let mut mem = memory();
    let good = DescriptorChain {
        index: 0,
        head: desc(0x100, 4, false),
        rest: vec![desc(0x104, 4, true)],
        cut_off: false,
    };
    let mut c = good.copied();
    c.head.write_only = true;
    assert!(matches!(
        Pmem::process_chain(&c, &mut mem, true),
        Err(PmemError::WriteOnlyDescriptor)
    ));
    let mut c = good.copied();
    c.head.len = 5;
    assert!(matches!(
        Pmem::process_chain(&c, &mut mem, true),
        Err(PmemError::Non4byteHeadDescriptor(5))
    ));
    let mut c = good.copied();
    c.rest[0].write_only = false;
    assert!(matches!(
        Pmem::process_chain(&c, &mut mem, true),
        Err(PmemError::ReadOnlyDescriptor)
    ));
    let mut c = good.copied();
    c.rest[0].len = 8;
    assert!(matches!(
        Pmem::process_chain(&c, &mut mem, true),
        Err(PmemError::Non4byteStatusDescriptor(8))
    ));
    let mut c = good.copied();
    c.rest.clear();
    assert!(matches!(
        Pmem::process_chain(&c, &mut mem, true),
        Err(PmemError::DescriptorChainTooShort)
    ));
    assert!(mem.write(0x100, &[1, 0, 0, 0]));
    assert!(matches!(
        Pmem::process_chain(&good, &mut mem, true),
        Err(PmemError::UnknownRequestType(1))
    ));
    let mut c = good.copied();
    c.head.addr = 0x10_0000;
    assert!(matches!(Pmem::process_chain(&c, &mut mem, true), Err(PmemError::GuestMemory)));
}

#[test]
fn a_queue_of_flushes_is_worked_off() {
    let mut mem = memory();
    let mut r = ResourceAllocator::new();
    let mut p = pmem(&mut r);
    p.activated = true;
    p.queue.notify = true;
    p.queue.avail.push(DescriptorChain {
        index: 9,
        head: desc(0x100, 4, false),
        rest: vec![desc(0x104, 4, true)],
        cut_off: false,
    });
    assert!(p.needs_sync(&mem));
    assert_eq!(p.handle_queue(&mut mem, true), Ok(true));
    assert_eq!(p.queue.used[0].id, 9);
    assert!(!p.needs_sync(&mem));
}

#[test]
fn flushes_wait_for_the_limiter_and_the_driver() {
    let mut r = ResourceAllocator::new();
    let mut p = pmem(&mut r);
    // Nothing waits.
    assert!(!p.process_queue(true));
    p.queue.avail.push(DescriptorChain {
        index: 9,
        head: desc(0x100, 4, false),
        rest: vec![desc(0x104, 4, true)],
        cut_off: false,
    });
    assert!(!p.process_queue(false));
    assert!(p.process_queue(true));
    p.rate_limiter.timer_active = true;
    assert!(!p.process_queue(true));
    assert!(!p.process_rate_limiter_event(0));
    assert!(p.process_rate_limiter_event(1));
    assert!(!p.rate_limiter.timer_active);
    assert!(!p.kick());
    p.activated = true;
    assert!(p.kick());
}

#[test]
fn a_region_is_given_back_without_a_slot() {
    let mut r = ResourceAllocator::new();
    let first = GuestPmemRegion::new(&mut r, ALIGNMENT).unwrap().config_space.start;
    let mut r = ResourceAllocator::new();
    let plan = MmapPlan::new(0x1000, false).unwrap();
    let mmap = PmemMmap::new(&plan, Ok(0x7000_0000), Ok(0x7000_0000)).unwrap();
    let config = PmemConfig {
        id: String::from("p"),
        path_on_host: String::from("/p"),
        root_device: false,
        read_only: false,
        rate_limiter: None,
    };
    assert!(matches!(
        Pmem::new_with_queues(&mut r, None, mmap, config, Queue::new(256), 0, None),
        Err(PmemError::NoKvmSlotAvailable)
    ));
    assert_eq!(GuestPmemRegion::new(&mut r, ALIGNMENT).unwrap().config_space.start, first);
}

#[test]
fn a_saved_pmem_device_keeps_its_place() {
    let mut r = ResourceAllocator::new();
    let p = pmem(&mut r);
    let s = PmemState::save(&p);
    assert_eq!(s.config_space, p.guest_region.config_space);
    let plan = MmapPlan::new(0x1000, false).unwrap();
    let mmap = PmemMmap::new(&plan, Ok(0x8000_0000), Ok(0x8000_0000)).unwrap();
    let mut r = ResourceAllocator::new();
    let (back, region) = s.restore(&mut r, Some(7), mmap, Queue::new(256)).unwrap();
    assert_eq!(back.guest_region.config_space, s.config_space);
    assert_eq!(region.slot, 7);
    let space = ConfigSpace { start: s.config_space.start, size: s.config_space.size };
    assert_eq!(GuestPmemRegion::from_state(space).config_space, space);
    let bytes = back.config_as_bytes();
    assert_eq!(bytes[..8], s.config_space.start.to_le_bytes());
    assert_eq!(bytes[8..16], s.config_space.size.to_le_bytes());
}

fn transport() -> MmioTransport {
    let device = DeviceView {
        device_type: VirtioDeviceType::Block,
        avail_features: 0x1_0000_0021,
        acked_features: 0,
        queues: vec![QueueConfig::new(256), QueueConfig::new(16)],
        activated: false,
        config: vec![1, 2, 3, 4],
    };
    MmioTransport::new(device, IrqTrigger::new(), false)
}

fn read32(t: &MmioTransport, offset: u64) -> u32 {
    let mut data = vec![0u8; 4];
    t.read(offset, &mut data);
    u32::from_le_bytes([data[0], data[1], data[2], data[3]])
}

fn write32(t: &mut MmioTransport, offset: u64, value: u32) -> MmioAction {
    t.write(offset, &value.to_le_bytes())
}

#[test]
fn a_driver_brings_a_device_up() {
    let mut t = transport();
    assert_eq!(read32(&t, 0), 0x7472_6976);
    assert_eq!(read32(&t, 4), 2);
    assert_eq!(read32(&t, 8), 2);
    assert_eq!(read32(&t, 0x10), 0x21);
    write32(&mut t, 0x14, 1);
    assert_eq!(read32(&t, 0x10), 1);
    assert_eq!(read32(&t, 0x34), 256);
    write32(&mut t, 0x30, 1);
    assert_eq!(read32(&t, 0x34), 16);
    write32(&mut t, 0x70, 1);
    write32(&mut t, 0x70, 3);
    write32(&mut t, 0x24, 1);
    write32(&mut t, 0x20, 1);
    assert_eq!(t.device.acked_features, 1 << 32);
    write32(&mut t, 0x70, 11);
    write32(&mut t, 0x38, 8);
    assert_eq!(t.device.queues[1].size, 8);
    write32(&mut t, 0x80, 0x1000);
    write32(&mut t, 0x84, 1);
    assert_eq!(t.device.queues[1].desc_table_address, 0x1_0000_1000);
    write32(&mut t, 0x44, 1);
    assert_eq!(read32(&t, 0x44), 1);
    assert!(matches!(write32(&mut t, 0x70, 15), MmioAction::Activate));
    assert_eq!(t.activation_answered(true), None);
    assert_eq!(read32(&t, 0x70), 15);
}

#[test]
fn a_device_that_was_reset_can_be_activated_again() {
    let mut t = transport();
    for _ in 0..2 {
        for s in [1, 3, 11] {
            assert!(matches!(write32(&mut t, 0x70, s), MmioAction::Nothing));
        }
        assert!(matches!(write32(&mut t, 0x70, 15), MmioAction::Activate));
        assert_eq!(t.activation_answered(true), None);
        assert!(matches!(write32(&mut t, 0x70, 0), MmioAction::ResetDevice));
        t.reset_answered(true);
        assert!(!t.device.activated);
        assert_eq!(read32(&t, 0x70), 0);
        // Nothing is active any more, so that there is nothing to ask for.
        assert!(matches!(write32(&mut t, 0x70, 0), MmioAction::Nothing));
    }
    for s in [1, 3, 11, 15] {
        write32(&mut t, 0x70, s);
    }
    t.activation_answered(true);
    assert!(matches!(write32(&mut t, 0x70, 0), MmioAction::ResetDevice));
    t.reset_answered(false);
    assert!(t.device.activated);
    assert_eq!(read32(&t, 0x70), 15 | 128);
}

#[test]
fn a_failed_device_stays_failed_without_a_reset() {
    let mut t = transport();
    for s in [1, 3, 128] {
        write32(&mut t, 0x70, s);
    }
    assert_eq!(read32(&t, 0x70), 3 | 128);
    for s in [1, 3, 11, 15, 128, 255] {
        assert!(matches!(write32(&mut t, 0x70, s), MmioAction::Nothing));
        assert_eq!(read32(&t, 0x70), 3 | 128);
    }
}

#[test]
fn steps_out_of_order_are_ignored() {
    let mut t = transport();
    assert!(matches!(write32(&mut t, 0x70, 15), MmioAction::Nothing));
    assert_eq!(read32(&t, 0x70), 0);
    write32(&mut t, 0x38, 8);
    assert_eq!(t.device.queues[0].size, 256);
    write32(&mut t, 0x20, 1);
    assert_eq!(t.device.acked_features, 0);
}

#[test]
fn a_failed_activation_asks_for_a_reset() {
    let mut t = transport();
    for s in [1, 3, 11] {
        write32(&mut t, 0x70, s);
    }
    assert!(matches!(write32(&mut t, 0x70, 15), MmioAction::Activate));
    assert_eq!(t.activation_answered(false), Some(VirtioInterruptType::Config));
    assert_eq!(t.device_status & 64, 64);
}

#[test]
fn interrupts_are_acknowledged() {
    let mut t = transport();
    t.interrupt.trigger(VirtioInterruptType::Config);
    t.interrupt.trigger(VirtioInterruptType::Queue(0));
    assert_eq!(read32(&t, 0x60), 3);
    write32(&mut t, 0x70, 1);
    write32(&mut t, 0x70, 3);
    write32(&mut t, 0x70, 11);
    write32(&mut t, 0x70, 15);
    t.activation_answered(true);
    write32(&mut t, 0x64, 1);
    assert_eq!(t.interrupt.irq_status, 2);
    assert!(matches!(IrqType::from(VirtioInterruptType::Queue(3)), IrqType::Vring));
    assert!(!IrqTrigger::new().trigger_queues(&[]));
    assert!(IrqTrigger::new().trigger_queues(&[1, 2]));
}

#[test]
fn configuration_space_follows_the_registers() {
    let mut t = transport();
    let mut two = vec![0u8; 2];
    t.read(0x101, &mut two);
    assert_eq!(two, vec![2, 3]);
    write32(&mut t, 0x70, 1);
    write32(&mut t, 0x70, 3);
    assert!(matches!(t.write(0x102, &[9]), MmioAction::WriteConfig(2)));
}

#[test]
fn a_saved_socket_keeps_its_port() {
    let b = VsockUnixBackend {
        cid: 3,
        host_sock_path: String::from("/v"),
        local_port_last: 0x4000_0007,
    };
    let s = b.save();
    assert_eq!(s.uds_path, "/v");
    let back = VsockUnixBackend::restore(VsockUdsConstructorArgs { cid: 3 }, &s);
    assert_eq!(back.local_port_last, 0x4000_0007);
    assert_eq!(back.host_sock_path, "/v");
    let other = VsockBackendState { uds_path: String::from("/w"), local_port_last: 1 };
    assert_eq!(
        VsockUnixBackend::restore(VsockUdsConstructorArgs { cid: 9 }, &other).cid,
        9
    );
}

#[test]
fn a_device_is_active_once_all_went_well() {
    let mut e = Entropy::new(RateLimiter::unlimited());
    assert_eq!(e.activate(false, true), Err(ActivateError::QueueMemoryError));
    assert_eq!(e.activate(true, false), Err(ActivateError::EventFd));
    assert!(!e.activated);
    assert_eq!(e.activate(true, true), Ok(()));
    assert!(e.activated);
    let mut r = ResourceAllocator::new();
    let mut p = pmem(&mut r);
    assert_eq!(p.activate(true, true), Ok(()));
    assert!(!p.process_rate_limiter_event(1));
}
