use vmm::devices::virtio::iovec::{
    IoVecBuffer, IoVecBufferMut, IoVecError, ParsedDescriptorChain, VolatileMemoryError,
};
use vmm::devices::virtio::net::device::{
    frame_bytes_from_buf, frame_bytes_from_buf_mut, frame_hdr_len, init_vnet_hdr, vnet_hdr_len,
    DeviceError, MacAddr, Net, NetError, NetEventAction, RxEvent, RxNext, RxSource, TxRun,
    TxStep,
};
use vmm::devices::virtio::device::ActivateError;
use vmm::devices::virtio::net::persist::{NetPersistError, NetState};
use vmm::devices::virtio::net::tap::{
    build_terminated_if_name, if_name_as_str, open_request, TapError,
};
use vmm::devices::virtio::queue::{Descriptor, DescriptorChain, Queue};
use vmm::rate_limiter::{BucketUpdate, RateLimiter, TokenBucket};
use vmm::vstate::guest_memory::GuestMemory;

const MAC: MacAddr = MacAddr { b0: 2, b1: 0, b2: 0, b3: 0, b4: 0, b5: 9 };

fn memory() -> GuestMemory {
    let mut mem = GuestMemory::empty();
    assert!(mem.add_region(0, (0..0x4_0000u32).map(|i| (i % 251) as u8).collect()));
    mem
}

fn desc(addr: u64, len: u32, write_only: bool) -> Descriptor {
    Descriptor { addr, len, write_only }
}

fn chain(index: u16, descs: &[Descriptor]) -> DescriptorChain {
    DescriptorChain { index, head: descs[0], rest: descs[1..].to_vec(), cut_off: false }
}

fn net() -> Net {
    let mut n = Net::new_with_tap(
        String::from("eth0"),
        build_terminated_if_name("tap0").unwrap(),
        Some(MAC),
        RateLimiter::unlimited(),
        RateLimiter::unlimited(),
        Some(1500),
    )
    .unwrap();
    n.activated = true;
    n.rx_queue.notify = true;
    n.tx_queue.notify = true;
    n
}

#[test]
fn readable_chains_are_read_across_buffers() {
    let mem = memory();
    let c = chain(0, &[desc(10, 4, false), desc(100, 6, false)]);
    let b = IoVecBuffer::from_descriptor_chain(&mem, &c).unwrap();
    assert_eq!(b.len(), 10);
    assert_eq!(b.iovec_count(), 2);
    assert_eq!(b.read_volatile_at(&mem, 2, 5), vec![12, 13, 100, 101, 102]);
    assert_eq!(b.read_volatile_at(&mem, 8, 5), vec![104, 105]);
    assert_eq!(b.read_exact_volatile_at(&mem, 8, 2), Ok(vec![104, 105]));
    assert_eq!(
        b.read_exact_volatile_at(&mem, 8, 5),
        Err(VolatileMemoryError::PartialBuffer { expected: 5, completed: 2 })
    );
    assert_eq!(
        b.read_exact_volatile_at(&mem, 10, 5),
        Err(VolatileMemoryError::OutOfBounds { addr: 10 })
    );
}

#[test]
fn chains_are_refused_by_their_direction() {
    let mem = memory();
    let w = chain(0, &[desc(10, 4, false), desc(100, 6, true)]);
    assert!(matches!(
        IoVecBuffer::from_descriptor_chain(&mem, &w),
        Err(IoVecError::WriteOnlyDescriptor)
    ));
    assert!(matches!(
        IoVecBufferMut::<256>::from_descriptor_chain(&mem, &w),
        Err(IoVecError::ReadOnlyDescriptor)
    ));
    let far = chain(0, &[desc(0x10_0000, 4, false)]);
    assert!(matches!(
        IoVecBuffer::from_descriptor_chain(&mem, &far),
        Err(IoVecError::GuestMemory)
    ));
}

#[test]
fn a_small_ring_of_buffers_overflows() {
    let mem = memory();
    let c = chain(0, &[desc(0, 4, true), desc(8, 4, true), desc(16, 4, true)]);
    assert!(matches!(
        IoVecBufferMut::<2>::from_descriptor_chain(&mem, &c),
        Err(IoVecError::IovDequeOverflow)
    ));
    let mut b = IoVecBufferMut::<4>::new();
    assert!(b.append_descriptor_chain(&mem, &c).is_ok());
    assert!(matches!(
        b.append_descriptor_chain(&mem, &c),
        Err(IoVecError::IovDequeOverflow)
    ));
    assert_eq!(b.len(), 12);
}

#[test]
fn appended_chains_are_dropped_again() {
    let mem = memory();
    let mut b = IoVecBufferMut::<256>::new();
    let p = b.append_descriptor_chain(&mem, &chain(7, &[desc(0, 4, true)])).unwrap();
    assert_eq!(p, ParsedDescriptorChain { head_index: 7, length: 4, nr_iovecs: 1 });
    let q = b
        .append_descriptor_chain(&mem, &chain(8, &[desc(8, 5, true), desc(16, 6, true)]))
        .unwrap();
    assert_eq!(b.len(), 15);
    b.drop_chain_back(&q);
    assert_eq!(b.len(), 4);
    b.drop_chain_front(&p);
    assert!(b.is_empty());
}

#[test]
fn writable_chains_are_written_across_buffers() {
    let mut mem = memory();
    let c = chain(0, &[desc(10, 4, true), desc(100, 6, true)]);
    let b = IoVecBufferMut::<256>::from_descriptor_chain(&mem, &c).unwrap();
    assert_eq!(b.write_volatile_at(&mut mem, &[1, 2, 3], 3), 3);
    assert_eq!(mem.read(13, 1), Some(vec![1]));
    assert_eq!(mem.read(100, 3), Some(vec![2, 3, 102]));
    assert_eq!(b.write_all_volatile_at(&mut mem, &[5], 9), Ok(()));
    assert_eq!(
        b.write_all_volatile_at(&mut mem, &[5, 6], 9),
        Err(VolatileMemoryError::PartialBuffer { expected: 2, completed: 1 })
    );
    assert_eq!(
        b.write_all_volatile_at(&mut mem, &[5], 10),
        Err(VolatileMemoryError::OutOfBounds { addr: 10 })
    );
}

#[test]
fn an_overlong_chain_overflows() {
    let mut mem = GuestMemory::empty();
    assert!(mem.add_region(0, vec![0; 16]));
    let c = chain(0, &[desc(0, 8, false), desc(0, u32::MAX, false)]);
    let r = IoVecBuffer::from_descriptor_chain(&mem, &c);
    assert!(matches!(r, Err(IoVecError::OverflowedDescriptor) | Err(IoVecError::GuestMemory)));
}

#[test]
fn frames_follow_a_header() {
    assert_eq!(vnet_hdr_len(), 12);
    assert_eq!(frame_hdr_len(), 54);
    let mut buf = vec![7u8; 20];
    assert_eq!(frame_bytes_from_buf(&buf).unwrap().len(), 8);
    assert!(matches!(frame_bytes_from_buf(&buf[..11]), Err(NetError::VnetHeaderMissing)));
    frame_bytes_from_buf_mut(&mut buf).unwrap()[0] = 1;
    assert_eq!(buf[12], 1);
    init_vnet_hdr(&mut buf);
    assert_eq!(&buf[..13], &[0, 0, 0, 0, 0, 0, 0, 0, 0, 0, 0, 0, 1]);
}

#[test]
fn a_tiny_mtu_is_refused() {
    let r = Net::new_with_tap(
        String::from("a"),
        vec![0],
        None,
        RateLimiter::unlimited(),
        RateLimiter::unlimited(),
        Some(67),
    );
    assert!(matches!(r, Err(NetError::InvalidMtu(67))));
}

#[test]
fn the_configuration_holds_the_address_and_the_mtu() {
    let n = net();
    assert_eq!(n.mtu(), Some(1500));
    assert_eq!(n.iface_name(), "tap0");
    assert_eq!(n.guest_mac(), Some(MAC));
    let c = n.config_as_bytes();
    assert_eq!(&c[..6], &[2, 0, 0, 0, 0, 9]);
    assert_eq!(&c[10..12], &1500u16.to_le_bytes());
}

#[test]
fn interface_names_are_terminated() {
    assert_eq!(build_terminated_if_name("tap0").unwrap(), b"tap0\0\0\0\0\0\0\0\0\0\0\0\0".to_vec());
    assert!(matches!(
        build_terminated_if_name("a123456789012345"),
        Err(TapError::InvalidIfname)
    ));
    assert_eq!(if_name_as_str(b"tap0\0\0"), "tap0");
    assert_eq!(if_name_as_str(&[0xff, 0]), "");
    let r = open_request("tap0").unwrap();
    assert_eq!(r.flags, 0x5002);
}

#[test]
fn offloads_follow_the_features() {
    assert_eq!(Net::build_tap_offload_features(0), 0);
    assert_eq!(Net::build_tap_offload_features(1 << 1), 1);
    assert_eq!(Net::build_tap_offload_features(1 << 7), 2);
    assert_eq!(Net::build_tap_offload_features(1 << 8), 4);
    assert_eq!(Net::build_tap_offload_features(1 << 10), 16);
}

#[test]
fn a_frame_is_taken_from_the_guest() {
    let mut mem = memory();
    let mut frame = vec![0u8; 12];
    frame.extend_from_slice(&[0xff; 6]);
    frame.extend_from_slice(&[2, 0, 0, 0, 0, 9]);
    frame.extend_from_slice(&[8, 0, 1, 2, 3]);
    assert!(mem.write(0x100, &frame));
    let mut n = net();
    n.tx_queue.avail.push(chain(3, &[desc(0x100, frame.len() as u32, false)]));
    let mut run = TxRun { pending: None, process_rx: false };
    match n.next_tx_frame(&mem, &mut run).unwrap() {
        TxStep::Frame { headers, spoofed } => {
            assert_eq!(headers, frame[12..]);
            assert!(!spoofed);
        }
        _ => panic!("there is a frame"),
    }
    assert_eq!(run.pending, Some(3));
    assert_eq!(n.send_tx_frame(&mem, &mut run, false), frame);
    assert_eq!(run.pending, None);
    assert!(matches!(n.next_tx_frame(&mem, &mut run), Ok(TxStep::Exhausted)));
    assert!(n.finish_tx(&run).interrupt);
    assert_eq!(n.tx_queue.used[0].id, 3);
}

#[test]
fn a_foreign_source_address_is_noticed() {
    let mut mem = memory();
    assert!(mem.write(0x100, &[0u8; 60]));
    let mut n = net();
    n.tx_queue.avail.push(chain(3, &[desc(0x100, 60, false)]));
    let mut run = TxRun { pending: None, process_rx: false };
    assert!(matches!(
        n.next_tx_frame(&mem, &mut run),
        Ok(TxStep::Frame { spoofed: true, .. })
    ));
}

#[test]
fn malformed_frames_are_passed_over() {
    let mem = memory();
    let mut n = net();
    n.tx_queue.avail.push(chain(3, &[desc(0x100, 5, false)]));
    n.tx_queue.avail.push(chain(4, &[desc(0x100, 60, true)]));
    let mut run = TxRun { pending: None, process_rx: false };
    assert!(matches!(n.next_tx_frame(&mem, &mut run), Ok(TxStep::Exhausted)));
    n.finish_tx(&run);
    assert_eq!(n.tx_queue.used.len(), 2);
}

#[test]
fn transmission_can_be_limited() {
    let mem = memory();
    let mut n = net();
    n.tx_rate_limiter.ops = Some(TokenBucket {
        size: 1,
        one_time_burst: 0,
        budget: 0,
        initial_one_time_burst: 0,
        refill_time: 1,
    });
    n.tx_queue.avail.push(chain(3, &[desc(0x100, 60, false)]));
    let mut run = TxRun { pending: None, process_rx: false };
    assert!(matches!(n.next_tx_frame(&mem, &mut run), Ok(TxStep::Throttled)));
    assert_eq!(n.tx_queue.next_avail, 0);
}

#[test]
fn a_frame_is_given_to_the_guest() {
    let mut mem = memory();
    let mut n = net();
    n.rx_buffer.min_buffer_size = n.minimum_rx_buffer_size();
    n.rx_queue.avail.push(chain(5, &[desc(0x1000, 70000, true)]));
    assert_eq!(n.make_room(&mem), Ok(true));
    assert_eq!(n.next_rx_source(true), RxSource::Mmds);
    assert_eq!(n.next_rx_source(false), RxSource::Tap);
    let len = n.rx_from_mmds(&mut mem, &[9, 8, 7]);
    assert_eq!(len, 15);
    assert_eq!(mem.read(0x1000 + 12, 3), Some(vec![9, 8, 7]));
    // One buffer was used.
    assert_eq!(mem.read(0x1000 + 10, 2), Some(vec![1, 0]));
    assert!(matches!(n.after_rx(RxEvent::Frame(len)), RxNext::Again));
    assert!(n.signal_rx());
    assert_eq!(n.rx_queue.used[0].id, 5);
    assert_eq!(n.rx_queue.used[0].len, 15);
    assert_eq!(n.make_room(&mem), Ok(false));
}

#[test]
fn a_queue_with_too_many_chains_is_reported() {
    let mem = memory();
    let mut n = net();
    for _ in 0..70000 {
        n.rx_queue.avail.push(chain(5, &[desc(0x1000, 4, true)]));
    }
    let e = n.make_room(&mem).unwrap_err();
    assert_eq!((e.pending, e.queue_size), (70000, n.rx_queue.size));
    assert_eq!(n.rx_queue.next_avail, 0);
}

#[test]
fn a_frame_of_the_host_interface_is_given_to_the_guest() {
    let mut mem = memory();
    let mut n = net();
    n.rx_buffer.min_buffer_size = n.minimum_rx_buffer_size();
    n.rx_queue.avail.push(chain(5, &[desc(0x1000, 70000, true)]));
    assert_eq!(n.make_room(&mem), Ok(true));
    assert_eq!(n.tap_room(), 70000);
    let frame: Vec<u8> = (100..120).collect();
    assert_eq!(n.rx_from_tap(&mut mem, &frame), 20);
    assert_eq!(mem.read(0x1000, 10), Some((100..110).collect()));
    // One buffer was used.
    assert_eq!(mem.read(0x1000 + 10, 2), Some(vec![1, 0]));
    assert_eq!(mem.read(0x1000 + 12, 8), Some((112..120).collect()));
    assert_eq!(n.rx_queue.staged.len(), 1);
    assert!(n.rx_queue.used.is_empty());
    n.prepare_save();
    assert!(n.rx_queue.staged.is_empty());
    assert_eq!((n.rx_queue.used[0].id, n.rx_queue.used[0].len), (5, 20));
}

#[test]
fn limits_of_an_interface_are_replaced() {
    let bucket = TokenBucket {
        size: 10,
        one_time_burst: 0,
        budget: 10,
        initial_one_time_burst: 0,
        refill_time: 100,
    };
    let mut n = net();
    n.patch_rate_limiters(
        BucketUpdate::Update(bucket),
        BucketUpdate::Unchanged,
        BucketUpdate::Unchanged,
        BucketUpdate::Update(bucket),
    );
    assert_eq!(n.rx_rate_limiter.bandwidth, Some(bucket));
    assert_eq!(n.rx_rate_limiter.ops, None);
    assert_eq!(n.tx_rate_limiter.bandwidth, None);
    assert_eq!(n.tx_rate_limiter.ops, Some(bucket));
    n.patch_rate_limiters(
        BucketUpdate::Disabled,
        BucketUpdate::Unchanged,
        BucketUpdate::Unchanged,
        BucketUpdate::Unchanged,
    );
    assert_eq!(n.rx_rate_limiter.bandwidth, None);
    assert_eq!(n.tx_rate_limiter.ops, Some(bucket));
}

#[test]
fn reception_ends_with_an_empty_tap() {
    let mut n = net();
    assert!(matches!(n.after_rx(RxEvent::NoRoom), RxNext::Finish));
    assert!(matches!(n.after_rx(RxEvent::TapError(11)), RxNext::Finish));
    assert!(matches!(
        n.after_rx(RxEvent::TapError(5)),
        RxNext::Fail(DeviceError::FailedReadTap)
    ));
}

#[test]
fn a_saved_net_device_comes_back() {
    let mut n = net();
    n.configure_mmds_network_stack(0xa9fe_a9fe);
    let s = NetState::save(&n);
    assert_eq!(s.tap_if_name, "tap0");
    let back = s.restore(Queue::new(256), Queue::new(256), true).unwrap();
    assert_eq!(back.mmds_ipv4, Some(0xa9fe_a9fe));
    assert_eq!(back.mtu(), Some(1500));
    assert_eq!(back.guest_mac(), Some(MAC));
    assert!(matches!(
        s.restore(Queue::new(256), Queue::new(256), false),
        Err(NetPersistError::NoMmdsDataStore)
    ));
    n.disable_mmds_network_stack();
    assert!(NetState::save(&n).restore(Queue::new(256), Queue::new(256), false).is_ok());
    let mut bad = NetState::save(&n);
    bad.config_space.mtu = Some(1);
    assert!(matches!(
        bad.restore(Queue::new(256), Queue::new(256), false),
        Err(NetPersistError::CreateNet(NetError::InvalidMtu(1)))
    ));
    let mut bad = NetState::save(&n);
    bad.tap_if_name = String::from("a_name_that_is_too_long");
    assert!(matches!(
        bad.restore(Queue::new(256), Queue::new(256), false),
        Err(NetPersistError::CreateNet(NetError::TapOpen(TapError::InvalidIfname)))
    ));
}

#[test]
fn an_interface_is_active_once_all_went_well() {
    let mut n = net();
    n.activated = false;
    n.acked_features = 1 << 29;
    assert_eq!(n.activate(false, true, true), Err(ActivateError::QueueMemoryError));
    assert_eq!(n.activate(true, false, true), Err(ActivateError::TapSetOffload));
    assert_eq!(n.rx_buffer.min_buffer_size, 0);
    assert_eq!(n.activate(true, true, false), Err(ActivateError::EventFd));
    assert_eq!(n.rx_buffer.min_buffer_size, 1526);
    assert_eq!(n.activate(true, true, true), Ok(true));
    assert!(n.activated);
}

#[test]
fn events_are_held_back_by_the_limiters() {
    let mem = memory();
    let mut n = net();
    n.rx_buffer.min_buffer_size = 1526;
    n.rx_queue.avail.push(chain(5, &[desc(0x1000, 70000, true)]));
    assert_eq!(n.process_rx_queue_event(&mem, false), NetEventAction::ReportFailure);
    assert_eq!(n.rx_queue.next_avail, 0);
    n.rx_rate_limiter.timer_active = true;
    assert_eq!(n.process_rx_queue_event(&mem, true), NetEventAction::Throttled);
    assert_eq!(n.rx_queue.next_avail, 1);
    assert_eq!(n.process_tap_rx_event(), NetEventAction::Throttled);
    assert_eq!(n.process_rx_rate_limiter_event(0), NetEventAction::ReportFailure);
    assert_eq!(n.process_rx_rate_limiter_event(1), NetEventAction::Receive);
    assert_eq!(n.process_tap_rx_event(), NetEventAction::Receive);
    n.tx_rate_limiter.timer_active = true;
    assert_eq!(n.process_tx_queue_event(true), NetEventAction::Throttled);
    assert_eq!(n.process_tx_rate_limiter_event(1), NetEventAction::Transmit);
    assert_eq!(n.process_tx_queue_event(true), NetEventAction::Transmit);
    assert_eq!(n.process_tx_queue_event(false), NetEventAction::ReportFailure);
}
