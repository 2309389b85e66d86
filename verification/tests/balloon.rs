use vmm::devices::virtio::balloon::device::{
    mib_to_pages, pages_to_mib, Balloon, StartHintingCmd, DEFLATE_INDEX, INFLATE_INDEX,
    STATS_INDEX,
};
use vmm::devices::virtio::balloon::queues::{
    BalloonError, BalloonStat, BalloonStats, DiscardRange,
};
use vmm::devices::virtio::balloon::util::compact_page_frame_numbers;
use vmm::devices::virtio::queue::{Descriptor, DescriptorChain};
use vmm::vstate::guest_memory::GuestMemory;

fn memory() -> GuestMemory {
    let mut mem = GuestMemory::empty();
    assert!(mem.add_region(0, vec![0; 0x4000]));
    mem
}

fn chain(index: u16, addr: u64, len: u32, write_only: bool) -> DescriptorChain {
    DescriptorChain {
        index,
        head: Descriptor { addr, len, write_only },
        rest: Vec::new(),
        cut_off: false,
    }
}

fn active(stats: u16, hinting: bool, reporting: bool) -> Balloon {
    let mut b = Balloon::new(16, true, stats, hinting, reporting).unwrap();
    b.activated = true;
    for q in b.queues.iter_mut() {
        q.notify = true;
    }
    b
}

fn words(values: &[u32]) -> Vec<u8> {
    values.iter().flat_map(|v| v.to_le_bytes()).collect()
}

#[test]
fn page_counts_are_converted() {
    assert_eq!(mib_to_pages(3), Ok(768));
    assert_eq!(pages_to_mib(768), 3);
    assert!(matches!(
        mib_to_pages(0x100_0000),
        Err(BalloonError::TooMuchMemoryRequested(0xff_ffff))
    ));
    assert_eq!(mib_to_pages(0xff_ffff), Ok(0xffff_ff00));
}

#[test]
fn runs_of_pages_are_joined() {
    assert_eq!(compact_page_frame_numbers(&vec![]), vec![]);
    assert_eq!(compact_page_frame_numbers(&vec![9]), vec![(9, 1)]);
    assert_eq!(
        compact_page_frame_numbers(&vec![7, 3, 2, 4, 9, 8, 20]),
        vec![(2, 3), (7, 3), (20, 1)]
    );
}

#[test]
fn a_page_given_twice_counts_once() {
    assert_eq!(compact_page_frame_numbers(&vec![5, 5, 6]), vec![(5, 2)]);
}

#[test]
fn inflated_pages_are_discarded() {
    let mut mem = memory();
    assert!(mem.write(0x100, &words(&[3, 1, 2, 9])));
    let mut b = active(0, false, false);
    b.queues[INFLATE_INDEX].avail.push(chain(4, 0x100, 16, false));
    let r = b.process_inflate(&mem);
    assert!(r.result.is_ok());
    assert!(r.interrupt);
    assert_eq!(
        r.discards,
        vec![
            DiscardRange { addr: 0x1000, len: 0x3000 },
            DiscardRange { addr: 0x9000, len: 0x1000 }
        ]
    );
    assert_eq!(b.queues[INFLATE_INDEX].used.len(), 1);
    assert_eq!(b.queues[INFLATE_INDEX].used[0].id, 4);
}

#[test]
fn writable_inflate_buffers_are_passed_over() {
    let mem = memory();
    let mut b = active(0, false, false);
    b.queues[INFLATE_INDEX].avail.push(chain(4, 0x100, 16, true));
    b.queues[INFLATE_INDEX].avail.push(chain(5, 0x100, 15, false));
    let r = b.process_inflate(&mem);
    assert!(r.discards.is_empty());
    assert_eq!(b.queues[INFLATE_INDEX].used.len(), 2);
}

#[test]
fn an_unreadable_inflate_buffer_is_malformed() {
    let mem = memory();
    let mut b = active(0, false, false);
    b.queues[INFLATE_INDEX].avail.push(chain(4, 0x10_0000, 16, false));
    let r = b.process_inflate(&mem);
    assert!(matches!(r.result, Err(BalloonError::MalformedDescriptor)));
}

#[test]
fn deflated_buffers_go_back_to_the_guest() {
    let mut b = active(0, false, false);
    b.queues[DEFLATE_INDEX].avail.push(chain(2, 0x100, 16, false));
    let r = b.process_deflate_queue();
    assert!(r.result.is_ok());
    assert!(r.interrupt);
    assert_eq!(b.queues[DEFLATE_INDEX].used[0].id, 2);
}

#[test]
fn statistics_are_read_from_the_guest() {
    let mut mem = memory();
    let mut bytes: Vec<u8> = Vec::new();
    for (tag, value) in [(0u16, 7u64), (4, 99), (200, 1)] {
        bytes.extend_from_slice(&tag.to_le_bytes());
        bytes.extend_from_slice(&value.to_le_bytes());
    }
    assert!(mem.write(0x100, &bytes));
    let mut b = active(1, false, false);
    b.queues[STATS_INDEX].avail.push(chain(2, 0x100, 30, false));
    let r = b.process_stats_queue(&mem);
    assert!(r.result.is_ok());
    assert_eq!(b.latest_stats.swap_in, Some(7));
    assert_eq!(b.latest_stats.free_memory, Some(99));
    assert_eq!(b.stats_desc_index, Some(2));
    assert_eq!(b.queues[STATS_INDEX].used.len(), 0);
    // The buffer is handed back when the next update is asked for.
    b.trigger_stats_update();
    assert_eq!(b.stats_desc_index, None);
    assert_eq!(b.queues[STATS_INDEX].used.len(), 1);
    let s = b.latest_stats().unwrap();
    assert_eq!(s.target_pages, 4096);
    assert_eq!(s.target_mib, 16);
}

#[test]
fn each_tag_has_its_statistic() {
    let mut s = BalloonStats::default();
    s.update_with_stat(&BalloonStat { tag: 1, val: 11 });
    s.update_with_stat(&BalloonStat { tag: 2, val: 12 });
    s.update_with_stat(&BalloonStat { tag: 3, val: 13 });
    s.update_with_stat(&BalloonStat { tag: 5, val: 15 });
    s.update_with_stat(&BalloonStat { tag: 6, val: 16 });
    s.update_with_stat(&BalloonStat { tag: 7, val: 17 });
    assert_eq!(s.swap_out, Some(11));
    assert_eq!(s.major_faults, Some(12));
    assert_eq!(s.minor_faults, Some(13));
    assert_eq!(s.total_memory, Some(15));
    assert_eq!(s.available_memory, Some(16));
    assert_eq!(s.disk_caches, Some(17));
    assert_eq!(s.swap_in, None);
}

#[test]
fn statistics_cannot_be_switched() {
    let mut b = active(0, false, false);
    assert!(matches!(
        b.update_stats_polling_interval(3),
        Err(BalloonError::StatisticsStateChange)
    ));
    assert!(matches!(b.latest_stats(), Err(BalloonError::StatisticsDisabled)));
    let mut b = active(2, false, false);
    assert!(matches!(
        b.update_stats_polling_interval(0),
        Err(BalloonError::StatisticsStateChange)
    ));
    let u = b.update_stats_polling_interval(5).unwrap();
    assert_eq!(u.timer_s, Some(5));
    assert_eq!(b.stats_polling_interval_s(), 5);
    assert_eq!(b.update_stats_polling_interval(5).unwrap().timer_s, None);
}

#[test]
fn a_balloon_changes_its_size_only_when_active() {
    let mut b = Balloon::new(16, false, 0, false, false).unwrap();
    assert!(matches!(b.update_size(8, 128), Err(BalloonError::DeviceNotActive)));
    b.activated = true;
    assert!(matches!(
        b.update_size(129, 128),
        Err(BalloonError::TooMuchMemoryRequested(129))
    ));
    assert_eq!(b.update_size(128, 128), Ok(()));
    assert_eq!(b.target_mb(), 128);
    assert_eq!(b.config().amount_mib, 128);
    assert_eq!((b.num_pages(), b.size_mb()), (0, 0));
    b.config_space.actual_pages = 3 * 256 + 7;
    assert_eq!((b.num_pages(), b.size_mb()), (3 * 256 + 7, 3));
    assert!(!b.deflate_on_oom());
}

#[test]
fn hinting_runs_have_numbers() {
    let mut b = active(0, true, false);
    assert_eq!(b.start_hinting(StartHintingCmd { acknowledge_on_stop: true }), Ok(()));
    let first = b.get_hinting_status().unwrap();
    assert_eq!(first.guest_cmd, None);
    assert!(first.host_cmd > 1);
    assert_eq!(b.start_hinting(StartHintingCmd { acknowledge_on_stop: true }), Ok(()));
    let second = b.get_hinting_status().unwrap();
    assert_eq!(second.host_cmd, first.host_cmd + 1);
    assert_eq!(b.stop_hinting(), Ok(()));
    assert_eq!(b.get_hinting_status().unwrap().host_cmd, 1);
    let mut off = active(0, false, false);
    assert!(matches!(off.get_hinting_status(), Err(BalloonError::HintingNotEnabled)));
    assert!(matches!(off.stop_hinting(), Err(BalloonError::HintingNotEnabled)));
}

#[test]
fn hinted_ranges_of_the_current_run_are_discarded() {
    let mut mem = memory();
    let mut b = active(0, true, false);
    b.start_hinting(StartHintingCmd { acknowledge_on_stop: true }).unwrap();
    let host_cmd = b.get_hinting_status().unwrap().host_cmd;
    assert!(mem.write(0x100, &words(&[host_cmd])));
    let i = b.free_page_hinting_idx();
    b.queues[i].avail.push(chain(0, 0x100, 4, false));
    b.queues[i].avail.push(chain(1, 0x2000, 0x1000, true));
    let (r, complete) = b.process_free_page_hinting_queue(&mem);
    assert!(r.result.is_ok());
    assert!(!complete);
    assert_eq!(r.discards, vec![DiscardRange { addr: 0x2000, len: 0x1000 }]);
    assert_eq!(b.hinting_state.guest_cmd, Some(host_cmd));
    // The guest ends the run.
    assert!(mem.write(0x100, &words(&[0])));
    b.queues[i].avail.push(chain(2, 0x100, 4, false));
    b.queues[i].avail.push(chain(3, 0x3000, 0x1000, true));
    let (r, _) = b.process_free_page_hinting_queue(&mem);
    assert!(r.discards.is_empty());
}

#[test]
fn reported_ranges_are_discarded() {
    let mut b = active(0, false, true);
    let i = b.free_page_reporting_idx();
    b.queues[i].avail.push(DescriptorChain {
        index: 7,
        head: Descriptor { addr: 0x1000, len: 0x1000, write_only: true },
        rest: vec![Descriptor { addr: 0x3000, len: 0x1000, write_only: true }],
        cut_off: false,
    });
    let r = b.process_free_page_reporting_queue();
    assert_eq!(
        r.discards,
        vec![
            DiscardRange { addr: 0x1000, len: 0x1000 },
            DiscardRange { addr: 0x3000, len: 0x1000 }
        ]
    );
}

#[test]
fn queues_follow_the_features() {
    let b = Balloon::new(1, false, 1, true, true).unwrap();
    assert_eq!(b.queues.len(), 5);
    assert_eq!(b.free_page_hinting_idx(), 3);
    assert_eq!(b.free_page_reporting_idx(), 4);
    let b = Balloon::new(1, false, 0, true, true).unwrap();
    assert_eq!(b.queues.len(), 4);
    assert_eq!(b.free_page_hinting_idx(), 2);
    assert_eq!(b.free_page_reporting_idx(), 3);
    let b = Balloon::new(1, false, 0, false, true).unwrap();
    assert_eq!(b.free_page_reporting_idx(), 2);
}

#[test]
fn configuration_space_is_little_endian() {
    let mut b = Balloon::new(1, true, 0, false, false).unwrap();
    assert_eq!(b.config_as_bytes(), words(&[256, 0, 0]));
    assert!(b.write_config(4, &[1, 2]));
    assert_eq!(b.config_space.actual_pages, 0x201);
    assert!(!b.write_config(11, &[1, 2]));
    let c = b.config();
    assert!(c.deflate_on_oom);
    assert_eq!(c.amount_mib, 1);
}

#[test]
fn all_queues_are_worked_on_in_turn() {
    let mut mem = memory();
    assert!(mem.write(0x100, &words(&[3])));
    let mut b = active(0, false, true);
    b.queues[INFLATE_INDEX].avail.push(chain(4, 0x100, 4, false));
    b.queues[DEFLATE_INDEX].avail.push(chain(5, 0x200, 4, false));
    let at = b.free_page_reporting_idx();
    b.queues[at].avail.push(chain(6, 0x1000, 0x1000, true));
    let r = b.process_virtio_queues(&mem);
    assert!(r.result.is_ok());
    assert_eq!(r.inflate.discards, vec![DiscardRange { addr: 0x3000, len: 0x1000 }]);
    assert!(r.deflate.unwrap().interrupt);
    assert!(r.hinting.is_none());
    assert_eq!(
        r.reporting.unwrap().discards,
        vec![DiscardRange { addr: 0x1000, len: 0x1000 }]
    );
    assert_eq!(b.queues[at].used[0].id, 6);
}

#[test]
fn an_inactive_balloon_has_nothing_to_do() {
    let mem = memory();
    let mut b = Balloon::new(16, false, 0, true, true).unwrap();
    assert!(b.process_deflate_queue().result.is_ok());
    let r = b.process_virtio_queues(&mem);
    assert!(r.result.is_ok());
    assert!(matches!(r.inflate.result, Err(BalloonError::DeviceNotActive)));
    assert!(!r.deflate.unwrap().interrupt);
    assert!(matches!(r.hinting.unwrap().0.result, Err(BalloonError::DeviceNotActive)));
    assert!(matches!(r.reporting.unwrap().result, Err(BalloonError::DeviceNotActive)));
}

#[test]
fn a_broken_queue_ends_the_work() {
    let mem = memory();
    let mut b = active(0, false, true);
    for i in 0..300u16 {
        b.queues[INFLATE_INDEX].avail.push(chain(i % 256, 0x100, 4, false));
    }
    b.queues[DEFLATE_INDEX].avail.push(chain(5, 0x200, 4, false));
    let r = b.process_virtio_queues(&mem);
    assert!(matches!(&r.result, Err(e) if e.pending == 300 && e.queue_size == 256));
    assert!(r.deflate.is_none());
    assert!(r.reporting.is_none());
    assert!(b.queues[DEFLATE_INDEX].used.is_empty());
}
