use vmm::devices::virtio::block::device::{
    BlockStep, Completion, DiskProperties, FileEngineType, QueueEventAction, VirtioBlock,
    VirtioBlockConfig,
};
use vmm::devices::virtio::block::persist::VirtioBlockState;
use vmm::devices::virtio::block::request::{
    Dispatch, EngineAnswer, EngineOp, IoErr, PendingRequest, ProcessingResult, Request,
    RequestHeader, RequestType, VirtioBlockError,
};
use vmm::devices::virtio::device::VirtioInterruptType;
use vmm::devices::virtio::queue::{Descriptor, DescriptorChain, Queue, QueueError, UsedElement};
use vmm::rate_limiter::{BucketUpdate, RateLimiter, TokenBucket, TokenType};
use vmm::vmm_config::drive::{BlockDeviceConfig, CacheType};
use vmm::vstate::guest_memory::GuestMemory;

fn memory() -> GuestMemory {
    let mut mem = GuestMemory::empty();
    assert!(mem.add_region(0x1000, vec![0xaa; 0x4000]));
    mem
}

fn put_header(mem: &mut GuestMemory, request_type: u32, sector: u64) {
    let mut bytes: Vec<u8> = request_type.to_le_bytes().to_vec();
    bytes.extend_from_slice(&0u32.to_le_bytes());
    bytes.extend_from_slice(&sector.to_le_bytes());
    assert!(mem.write(0x1000, &bytes));
}

fn desc(addr: u64, len: u32, write_only: bool) -> Descriptor {
    Descriptor { addr, len, write_only }
}

fn chain(data_len: u32, data_writable: bool) -> DescriptorChain {
    DescriptorChain {
        index: 3,
        head: desc(0x1000, 16, false),
        rest: vec![desc(0x2000, data_len, data_writable), desc(0x3000, 1, true)],
        cut_off: false,
    }
}

fn disk() -> DiskProperties {
    DiskProperties::new(String::from("/tmp/disk"), FileEngineType::Sync, 0x10_0000, Some(b"abc"))
}

fn block() -> VirtioBlock {
    VirtioBlock::new(
        VirtioBlockConfig {
            drive_id: String::from("root"),
            partuuid: None,
            is_root_device: true,
            cache_type: CacheType::Writeback,
            is_read_only: false,
            path_on_host: String::from("/tmp/disk"),
            rate_limiter: None,
            file_engine_type: FileEngineType::Sync,
        },
        disk(),
    )
}

fn parse(mem: &GuestMemory, chain: &DescriptorChain) -> Result<Request, VirtioBlockError> {
    Request::parse(chain, mem, 0x800)
}

#[test]
fn a_flush_may_do_without_data() {
    let mut mem = memory();
    put_header(&mut mem, 4, 0);
    let mut c = DescriptorChain {
        index: 1,
        head: desc(0x1000, 16, false),
        rest: vec![desc(0x3000, 1, true)],
        cut_off: false,
    };
    let r = parse(&mem, &c).unwrap();
    assert_eq!(r.request_type, RequestType::Flush);
    assert_eq!((r.status_addr, r.data_len), (0x3000, 0));
    // A second buffer that names a third one is the data, and the third one is not there.
    c.cut_off = true;
    assert_eq!(parse(&mem, &c), Err(VirtioBlockError::DescriptorChainTooShort));
}

#[test]
fn a_read_request_is_parsed() {
    let mut mem = memory();
    put_header(&mut mem, 0, 4);
    let r = parse(&mem, &chain(1024, true)).unwrap();
    assert_eq!(r.request_type, RequestType::In);
    assert_eq!(r.data_len, 1024);
    assert_eq!(r.sector, 4);
    assert_eq!(r.offset(), 2048);
    assert_eq!(r.data_addr, 0x2000);
    assert_eq!(r.status_addr, 0x3000);
}

#[test]
fn malformed_requests_are_refused() {
    let mut mem = memory();
    put_header(&mut mem, 0, 4);
    let mut c = chain(1024, true);
    c.head.write_only = true;
    assert!(matches!(parse(&mem, &c), Err(VirtioBlockError::UnexpectedWriteOnlyDescriptor)));
    assert!(matches!(
        parse(&mem, &chain(1024, false)),
        Err(VirtioBlockError::UnexpectedReadOnlyDescriptor)
    ));
    let mut c = chain(1024, true);
    c.rest[1].write_only = false;
    assert!(matches!(parse(&mem, &c), Err(VirtioBlockError::UnexpectedReadOnlyDescriptor)));
    let mut c = chain(1024, true);
    c.rest[1].len = 0;
    assert!(matches!(parse(&mem, &c), Err(VirtioBlockError::DescriptorLengthTooSmall)));
    let mut c = chain(1024, true);
    c.rest.truncate(1);
    assert!(matches!(parse(&mem, &c), Err(VirtioBlockError::DescriptorChainTooShort)));
    c.rest.clear();
    assert!(matches!(parse(&mem, &c), Err(VirtioBlockError::DescriptorChainTooShort)));
    assert!(matches!(
        parse(&mem, &chain(1000, true)),
        Err(VirtioBlockError::InvalidDataLength)
    ));
    let mut c = chain(1024, true);
    c.head.addr = 0x4ff8;
    assert!(matches!(parse(&mem, &c), Err(VirtioBlockError::GuestMemory)));
    put_header(&mut mem, 0, 0x7ff);
    assert!(matches!(parse(&mem, &chain(1024, true)), Err(VirtioBlockError::InvalidOffset)));
    assert!(parse(&mem, &chain(512, true)).is_ok());
    put_header(&mut mem, 1, 0);
    assert!(matches!(
        parse(&mem, &chain(512, true)),
        Err(VirtioBlockError::UnexpectedWriteOnlyDescriptor)
    ));
}

#[test]
fn a_header_has_a_reserved_word() {
    let h = RequestHeader::new(4, 9);
    assert_eq!(h.reserved, 0);
    assert_eq!(RequestType::from(8), RequestType::GetDeviceID);
    assert_eq!(RequestType::from(7), RequestType::Unsupported(7));
}

#[test]
fn the_identifier_is_copied_to_the_guest() {
    let mut mem = memory();
    put_header(&mut mem, 8, 0);
    let r = parse(&mem, &chain(20, true)).unwrap();
    let d = r.process(&disk().image_id, 3, &mut mem);
    match d {
        Dispatch::Executed(f) => {
            assert_eq!(f.desc_idx, 3);
            assert_eq!(f.num_bytes_to_mem, 21);
        }
        Dispatch::Engine(_) => panic!("no engine is needed"),
    }
    let mut expected = vec![0u8; 20];
    expected[..3].copy_from_slice(b"abc");
    assert_eq!(mem.read(0x2000, 20), Some(expected));
    assert_eq!(mem.read_byte(0x3000), Some(0));
}

#[test]
fn an_unknown_request_is_answered() {
    let mut mem = memory();
    put_header(&mut mem, 77, 0);
    let r = parse(&mem, &chain(20, true)).unwrap();
    assert!(matches!(r.process(&disk().image_id, 3, &mut mem), Dispatch::Executed(_)));
    assert_eq!(mem.read_byte(0x3000), Some(2));
}

#[test]
fn an_engine_request_names_the_disk_range() {
    let mut mem = memory();
    put_header(&mut mem, 1, 4);
    let r = parse(&mem, &chain(512, false)).unwrap();
    match r.process(&disk().image_id, 3, &mut mem) {
        Dispatch::Engine(e) => {
            assert!(matches!(e.op, EngineOp::Write));
            assert_eq!((e.offset, e.addr, e.count), (2048, 0x2000, 512));
            assert!(matches!(
                e.answered(EngineAnswer::Throttled, &mut mem),
                ProcessingResult::Throttled
            ));
        }
        Dispatch::Executed(_) => panic!("an engine is needed"),
    }
}

#[test]
fn a_short_transfer_is_an_error() {
    let mut mem = memory();
    let req = PendingRequest {
        request_type: RequestType::In,
        data_len: 1024,
        status_addr: 0x3000,
        desc_idx: 1,
    };
    let f = req.finish(&mut mem, Ok(512));
    assert_eq!(f.num_bytes_to_mem, 513);
    assert_eq!(mem.read_byte(0x3000), Some(1));
    let f = req.finish(&mut mem, Ok(1024));
    assert_eq!(f.num_bytes_to_mem, 1025);
    assert_eq!(mem.read_byte(0x3000), Some(0));
    let f = req.finish(&mut mem, Err(IoErr::FileEngine));
    assert_eq!(f.num_bytes_to_mem, 1);
    assert_eq!(mem.read_byte(0x3000), Some(1));
}

#[test]
fn the_bytes_of_a_write_do_not_count() {
    let mut mem = memory();
    let req = PendingRequest {
        request_type: RequestType::Out,
        data_len: u32::MAX,
        status_addr: 0x3000,
        desc_idx: 1,
    };
    assert_eq!(req.finish(&mut mem, Ok(u32::MAX)).num_bytes_to_mem, 1);
    assert_eq!(mem.read_byte(0x3000), Some(0));
}

#[test]
fn an_unwritable_status_reports_no_bytes() {
    let mut mem = memory();
    let req = PendingRequest {
        request_type: RequestType::In,
        data_len: 1024,
        status_addr: 0x10,
        desc_idx: 1,
    };
    assert_eq!(req.finish(&mut mem, Ok(1024)).num_bytes_to_mem, 0);
}

#[test]
fn a_device_works_through_its_queue() {
    let mut mem = memory();
    put_header(&mut mem, 0, 4);
    let mut b = block();
    b.queue.avail.push(chain(512, true));
    let step = b.process_queue(&mut mem).unwrap();
    let work = match step.0 {
        BlockStep::Engine(work) => work,
        _ => panic!("an engine is needed"),
    };
    assert!(!step.1);
    assert_eq!(b.queue.next_avail, 1);
    assert!(matches!(
        b.engine_answered(work, EngineAnswer::Executed(512), &mut mem),
        (BlockStep::Continue, true)
    ));
    assert_eq!(b.queue.used.len() + b.queue.staged.len(), 1);
    assert!(matches!(b.process_queue(&mut mem), Ok((BlockStep::Stop, _))));
    b.queue.notify = true;
    assert_eq!(b.finish_queue(true), Some(VirtioInterruptType::Queue(0)));
    assert_eq!(b.queue.used.last().copied(), Some(UsedElement { id: 3, len: 513 }));
}

#[test]
fn a_throttled_engine_gives_the_request_back() {
    let mut mem = memory();
    put_header(&mut mem, 0, 4);
    let mut b = block();
    b.rate_limiter.ops = Some(TokenBucket {
        size: 10,
        one_time_burst: 0,
        budget: 10,
        initial_one_time_burst: 0,
        refill_time: 1000,
    });
    b.queue.avail.push(chain(512, true));
    let work = match b.process_next(&mut mem).unwrap() {
        BlockStep::Engine(work) => work,
        _ => panic!("an engine is needed"),
    };
    assert_eq!(b.rate_limiter.ops.unwrap().budget, 9);
    assert!(matches!(
        b.engine_answered(work, EngineAnswer::Throttled, &mut mem),
        (BlockStep::Stop, false)
    ));
    assert_eq!(b.queue.next_avail, 0);
    assert!(b.is_io_engine_throttled);
    assert!(matches!(b.process_queue_event(true), QueueEventAction::EngineThrottled));
    assert!(b.resume_after_completion());
    assert!(!b.is_io_engine_throttled);
    assert!(!b.resume_after_completion());
}

#[test]
fn a_rate_limiter_holds_requests_back() {
    let mut mem = memory();
    put_header(&mut mem, 0, 4);
    let mut b = block();
    b.rate_limiter.ops = Some(TokenBucket {
        size: 1,
        one_time_burst: 0,
        budget: 0,
        initial_one_time_burst: 0,
        refill_time: 1000,
    });
    b.queue.avail.push(chain(512, true));
    assert!(matches!(b.process_next(&mut mem), Ok(BlockStep::Stop)));
    assert_eq!(b.queue.next_avail, 0);
    assert!(b.rate_limiter.is_blocked());
    assert!(matches!(b.process_queue_event(true), QueueEventAction::Throttled));
    assert!(matches!(b.process_queue_event(false), QueueEventAction::ReportFailure));
}

#[test]
fn too_many_chains_are_reported() {
    let mut q = Queue::new(2);
    for _ in 0..3 {
        q.avail.push(chain(512, true));
    }
    let e = q.pop().unwrap_err();
    assert_eq!((e.queue_size, e.pending), (2, 3));
    assert_eq!(q.add_used(2, 0), Err(QueueError::DescIndexOutOfBounds(2)));
    assert_eq!(q.add_used(1, 7), Ok(()));
    assert_eq!(q.used, vec![UsedElement { id: 1, len: 7 }]);
}

#[test]
fn a_popped_chain_can_be_given_back() {
    let mut q = Queue::new(4);
    q.avail.push(chain(512, true));
    assert!(q.pop().unwrap().is_some());
    assert!(q.is_empty());
    q.undo_pop();
    assert!(!q.is_empty());
    assert_eq!(q.pop().unwrap().unwrap().index, 3);
    assert!(q.pop().unwrap().is_none());
}

#[test]
fn completions_are_finished_in_order() {
    let mut mem = memory();
    let mut b = block();
    let req = PendingRequest {
        request_type: RequestType::Flush,
        data_len: 0,
        status_addr: 0x3000,
        desc_idx: 1,
    };
    let done = [
        Completion { req, count: Some(0) },
        Completion { req: PendingRequest { desc_idx: 2, ..req }, count: None },
    ];
    b.process_async_completion_queue(&done, &mut mem);
    let ids: Vec<u16> = b.queue.used.iter().map(|u| u.id).collect();
    assert_eq!(ids, vec![1, 2]);
    assert_eq!(mem.read_byte(0x3000), Some(1));
}

#[test]
fn a_partial_last_sector_is_left_out() {
    let d = DiskProperties::new(String::from("d"), FileEngineType::Async, 1025, None);
    assert_eq!(d.nsectors, 2);
    assert_eq!(d.image_id, vec![0u8; 20]);
    assert_eq!(DiskProperties::build_device_id(1, 22, 333), "122333");
}

#[test]
fn a_new_image_changes_the_capacity() {
    let mut b = block();
    b.activated = true;
    assert_eq!(b.config_space.capacity, 0x800);
    assert_eq!(
        b.update_disk_image(String::from("/new"), 512, None),
        Some(VirtioInterruptType::Config)
    );
    assert_eq!(b.config_space.capacity, 1);
    assert_eq!(b.config_as_bytes(), vec![1, 0, 0, 0, 0, 0, 0, 0]);
    assert!(!b.write_config(8, &[1]));
    assert!(b.write_config(1, &[1]));
    assert_eq!(b.config_space.capacity, 0x101);
}

#[test]
fn a_drive_needs_a_path_and_no_socket() {
    let drive = BlockDeviceConfig {
        drive_id: String::from("a"),
        partuuid: None,
        is_root_device: false,
        cache_type: CacheType::Unsafe,
        is_read_only: None,
        path_on_host: Some(String::from("p")),
        rate_limiter: None,
        file_engine_type: None,
        socket: None,
    };
    let c = VirtioBlockConfig::try_from_drive(&drive).unwrap();
    assert!(!c.is_read_only);
    assert_eq!(c.file_engine_type, FileEngineType::Sync);
    let back = c.into_drive();
    assert_eq!(back.path_on_host.as_deref(), Some("p"));
    let mut other = drive.copied();
    other.socket = Some(String::from("s"));
    assert!(matches!(
        VirtioBlockConfig::try_from_drive(&other),
        Err(VirtioBlockError::Config)
    ));
    let mut other = drive.copied();
    other.path_on_host = None;
    assert!(matches!(
        VirtioBlockConfig::try_from_drive(&other),
        Err(VirtioBlockError::Config)
    ));
}

#[test]
fn a_saved_block_device_comes_back() {
    let mut b = block();
    b.acked_features = b.avail_features;
    b.activated = true;
    let state = VirtioBlockState::save(&b);
    assert!(!state.is_read_only());
    let back = state.restore(0x10_0000, Some(b"abc"), Queue::new(256));
    assert_eq!(back.id, "root");
    assert_eq!(back.acked_features, b.acked_features);
    assert_eq!(back.config_space.capacity, 0x800);
    assert_eq!(back.disk.image_id, b.disk.image_id);
    assert!(state.virtio_state.activated);
    assert!(!back.activated);
    assert!(back.root_device);
    assert!(!back.read_only);
}

#[test]
fn the_engine_is_flushed_before_a_device_is_dropped() {
    let mut b = block();
    assert!(b.before_drop().flush);
    assert!(b.prepare_save().is_none());
    b.activated = true;
    assert!(b.prepare_save().is_some());
}

#[test]
fn a_bucket_spends_its_burst_first() {
    let mut l = RateLimiter::unlimited();
    assert!(l.consume(1 << 40, TokenType::Bytes));
    l.update_buckets(
        BucketUpdate::Update(TokenBucket {
            size: 100,
            one_time_burst: 10,
            budget: 100,
            initial_one_time_burst: 10,
            refill_time: 1000,
        }),
        BucketUpdate::Disabled,
    );
    assert!(l.consume(15, TokenType::Bytes));
    let b = l.bandwidth.unwrap();
    assert_eq!((b.one_time_burst, b.budget), (0, 95));
    assert!(l.consume(95, TokenType::Bytes));
    assert!(!l.consume(1, TokenType::Bytes));
    assert!(l.is_blocked());
}
