//! The balloon device model.

use vstd::prelude::*;

use crate::devices::virtio::balloon::queues::{
    deflate_done, hinting_done, inflate_done, process_deflate_queue,
    process_free_page_hinting_queue, process_free_page_reporting_queue, process_inflate,
    process_stats_queue, reporting_done, stats_done, BalloonError, BalloonStats, QueueOutcome,
    FREE_PAGE_HINT_DONE, FREE_PAGE_HINT_STOP,
};
use crate::devices::virtio::device::{
    config_written, feature, has_feature, write_config_bytes, ActivateError, VIRTIO_F_VERSION_1,
};
use crate::devices::virtio::queue::{
    InvalidAvailIdx, Queue, UsedElement, FIRECRACKER_MAX_QUEUE_SIZE,
};
use crate::vstate::guest_memory::{bytes32, le32, read_le32, to_le32, GuestMemory};

verus! {

/// Number of pages in a MiB.
pub const MIB_TO_4K_PAGES: u32 = 256;

/// Feature bit: the guest reports statistics.
pub const VIRTIO_BALLOON_F_STATS_VQ: u32 = 1;

/// Feature bit: the guest takes pages back when it runs out of memory.
pub const VIRTIO_BALLOON_F_DEFLATE_ON_OOM: u32 = 2;

/// Feature bit: the guest hints at free pages.
pub const VIRTIO_BALLOON_F_FREE_PAGE_HINTING: u32 = 3;

/// Feature bit: the guest reports free pages.
pub const VIRTIO_BALLOON_F_FREE_PAGE_REPORTING: u32 = 5;

/// Number of queues that every balloon has.
pub const BALLOON_MIN_NUM_QUEUES: usize = 2;

/// Index of the inflation queue.
pub const INFLATE_INDEX: usize = 0;

/// Index of the deflation queue.
pub const DEFLATE_INDEX: usize = 1;

/// Index of the queue of statistics.
pub const STATS_INDEX: usize = 2;

/// A number of MiB in pages.
pub fn mib_to_pages(amount_mib: u32) -> (r: Result<u32, BalloonError>)
    ensures
        r == (if amount_mib * MIB_TO_4K_PAGES <= u32::MAX {
            Ok((amount_mib * MIB_TO_4K_PAGES) as u32)
        } else {
            Err(BalloonError::TooMuchMemoryRequested(u32::MAX / MIB_TO_4K_PAGES))
        }),
{
    match amount_mib.checked_mul(MIB_TO_4K_PAGES) {
        Some(pages) => Ok(pages),
        None => Err(BalloonError::TooMuchMemoryRequested(u32::MAX / MIB_TO_4K_PAGES)),
    }
}

/// A number of pages in whole MiB.
pub fn pages_to_mib(amount_pages: u32) -> (r: u32)
    ensures
        r == amount_pages / MIB_TO_4K_PAGES,
{
    amount_pages / MIB_TO_4K_PAGES
}

/// A size in MiB that has a number of pages is given back by that number.
pub proof fn law_mib_round_trip(amount_mib: u32)
    requires
        amount_mib * MIB_TO_4K_PAGES <= u32::MAX,
    ensures
        ((amount_mib * MIB_TO_4K_PAGES) as u32) / MIB_TO_4K_PAGES == amount_mib,
{
}

/// What the guest sees of the configuration.
#[derive(Debug, Clone, Copy, PartialEq, Eq, Structural)]
pub struct ConfigSpace {
    /// Target size, in pages.
    pub num_pages: u32,
    /// Current size, in pages.
    pub actual_pages: u32,
    /// The current hinting command.
    pub free_page_hint_cmd_id: u32,
}

impl ConfigSpace {
    /// The bytes of the configuration space.
    pub open spec fn bytes(self) -> Seq<u8> {
        bytes32(self.num_pages) + bytes32(self.actual_pages) + bytes32(self.free_page_hint_cmd_id)
    }

    /// The configuration space with given bytes.
    pub open spec fn of_bytes(b: Seq<u8>) -> ConfigSpace {
        ConfigSpace {
            num_pages: le32(b.subrange(0, 4)),
            actual_pages: le32(b.subrange(4, 8)),
            free_page_hint_cmd_id: le32(b.subrange(8, 12)),
        }
    }
}

/// State of the hinting runs.
#[derive(Debug, Clone, Copy, PartialEq, Eq, Structural)]
pub struct HintingState {
    /// The command of the host.
    pub host_cmd: u32,
    /// The last command by which the host started a run.
    pub last_cmd_id: u32,
    /// The last command of the guest.
    pub guest_cmd: Option<u32>,
    /// Whether the end of a run is acknowledged by itself.
    pub acknowledge_on_finish: bool,
}

/// By default the end of a hinting run is acknowledged.
pub fn default_ack_on_stop() -> (r: bool)
    ensures
        r,
{
    true
}

/// A request to start a hinting run.
#[derive(Debug, Clone, Copy, PartialEq, Eq, Structural)]
pub struct StartHintingCmd {
    /// Whether the end of the run is acknowledged by itself.
    pub acknowledge_on_stop: bool,
}

impl Default for StartHintingCmd {
    fn default() -> (r: StartHintingCmd)
        ensures
            r.acknowledge_on_stop,
    {
        StartHintingCmd { acknowledge_on_stop: default_ack_on_stop() }
    }
}

/// The commands of a hinting run.
#[derive(Debug, Clone, Copy, PartialEq, Eq, Structural)]
pub struct HintingStatus {
    /// The command of the host.
    pub host_cmd: u32,
    /// The last command of the guest.
    pub guest_cmd: Option<u32>,
}

/// Configuration of a balloon.
#[derive(Debug, Clone, Copy, PartialEq, Eq, Structural)]
pub struct BalloonConfig {
    /// Target size, in MiB.
    pub amount_mib: u32,
    /// Whether the guest takes pages back when it runs out of memory.
    pub deflate_on_oom: bool,
    /// How often statistics are polled, in seconds; zero for never.
    pub stats_polling_interval_s: u16,
    /// Whether the guest hints at free pages.
    pub free_page_hinting: bool,
    /// Whether the guest reports free pages.
    pub free_page_reporting: bool,
}

/// The features that a balloon offers.
pub open spec fn offered(
    deflate_on_oom: bool,
    stats: bool,
    free_page_hinting: bool,
    free_page_reporting: bool,
) -> u64 {
    (1u64 << 32) | (if deflate_on_oom {
        1u64 << 2
    } else {
        0u64
    }) | (if stats {
        1u64 << 1
    } else {
        0u64
    }) | (if free_page_hinting {
        1u64 << 3
    } else {
        0u64
    }) | (if free_page_reporting {
        1u64 << 5
    } else {
        0u64
    })
}

/// A feature is offered exactly when it was asked for.
pub proof fn law_features_as_asked(
    deflate_on_oom: bool,
    stats: bool,
    free_page_hinting: bool,
    free_page_reporting: bool,
)
    ensures
        ({
            let f = offered(deflate_on_oom, stats, free_page_hinting, free_page_reporting);
            &&& feature(f, VIRTIO_F_VERSION_1)
            &&& feature(f, VIRTIO_BALLOON_F_DEFLATE_ON_OOM) == deflate_on_oom
            &&& feature(f, VIRTIO_BALLOON_F_STATS_VQ) == stats
            &&& feature(f, VIRTIO_BALLOON_F_FREE_PAGE_HINTING) == free_page_hinting
            &&& feature(f, VIRTIO_BALLOON_F_FREE_PAGE_REPORTING) == free_page_reporting
        }),
{
    let f = offered(deflate_on_oom, stats, free_page_hinting, free_page_reporting);
    let d = if deflate_on_oom {
        1u64 << 2
    } else {
        0u64
    };
    let s = if stats {
        1u64 << 1
    } else {
        0u64
    };
    let h = if free_page_hinting {
        1u64 << 3
    } else {
        0u64
    };
    let r = if free_page_reporting {
        1u64 << 5
    } else {
        0u64
    };
    assert(f & (1u64 << 32) != 0 && ((f & (1u64 << 2) != 0) == (d != 0)) && ((f & (1u64 << 1) != 0)
        == (s != 0)) && ((f & (1u64 << 3) != 0) == (h != 0)) && ((f & (1u64 << 5) != 0) == (r != 0))
        && 1u64 << 2 != 0 && 1u64 << 1 != 0 && 1u64 << 3 != 0 && 1u64 << 5 != 0) by (bit_vector)
        requires
            f == (1u64 << 32) | d | s | h | r,
            d == 0 || d == 1u64 << 2,
            s == 0 || s == 1u64 << 1,
            h == 0 || h == 1u64 << 3,
            r == 0 || r == 1u64 << 5,
    ;
}

/// What is due after a change to the polling of statistics.
#[derive(Debug, Clone, Copy, PartialEq, Eq, Structural)]
pub struct StatsUpdate {
    /// Whether the guest is to be interrupted for the queue of statistics.
    pub interrupt: bool,
    /// The interval in seconds with which the timer is to be armed.
    pub timer_s: Option<u16>,
}

/// What is due after a device is woken up.
#[derive(Debug, Clone, Copy, PartialEq, Eq, Structural)]
pub struct KickOutcome {
    /// Whether the guest is to be interrupted for a change of the configuration.
    pub config_interrupt: bool,
    /// Whether the queues are to be notified.
    pub notify_queues: bool,
}

/// What came of the work on all queues.
#[derive(Debug)]
pub struct QueuesOutcome {
    /// What came of the work on the inflation queue.
    pub inflate: QueueOutcome,
    /// What came of the work on the deflation queue, if it was worked on.
    pub deflate: Option<QueueOutcome>,
    /// What came of the work on the hinting queue, if it was worked on, and whether the guest is
    /// to be interrupted for a change of the configuration.
    pub hinting: Option<(QueueOutcome, bool)>,
    /// What came of the work on the reporting queue, if it was worked on.
    pub reporting: Option<QueueOutcome>,
    /// Whether a queue was broken.
    pub result: Result<(), InvalidAvailIdx>,
}

/// Whether a queue was found to be broken.
pub open spec fn broken(r: Result<(), BalloonError>) -> bool {
    r matches Err(BalloonError::InvalidAvailIdx(_))
}

/// Whether nothing was done on a queue because the device is not active.
pub open spec fn not_active(r: QueueOutcome) -> bool {
    &&& r.result == Err::<(), BalloonError>(BalloonError::DeviceNotActive)
    &&& r.discards@.len() == 0
    &&& !r.interrupt
}

/// How a queue was found to be broken.
pub open spec fn breakage(r: Result<(), BalloonError>) -> InvalidAvailIdx {
    r->Err_0->InvalidAvailIdx_0
}

// Says how a queue was found to be broken.
fn breakage_of(r: &Result<(), BalloonError>) -> (b: Option<InvalidAvailIdx>)
    ensures
        b == (if broken(*r) {
            Some(breakage(*r))
        } else {
            None
        }),
{
    match r {
        Err(BalloonError::InvalidAvailIdx(e)) => Some(*e),
        _ => None,
    }
}

/// A virtio balloon.
#[derive(Debug)]
pub struct Balloon {
    /// Features on offer.
    pub avail_features: u64,
    /// Features that the driver accepted.
    pub acked_features: u64,
    /// What the guest sees of the configuration.
    pub config_space: ConfigSpace,
    /// The queues.
    pub queues: Vec<Queue>,
    /// Whether the device is active.
    pub activated: bool,
    /// How often statistics are polled, in seconds; zero for never.
    pub stats_polling_interval_s: u16,
    /// Head of the chain that is kept for the next request for statistics.
    pub stats_desc_index: Option<u16>,
    /// The statistics.
    pub latest_stats: BalloonStats,
    /// State of the hinting runs.
    pub hinting_state: HintingState,
}

impl Balloon {
    /// Whether statistics are polled.
    pub open spec fn polls(self) -> bool {
        self.stats_polling_interval_s > 0
    }

    /// Whether the guest hints at free pages.
    pub open spec fn hints(self) -> bool {
        feature(self.avail_features, VIRTIO_BALLOON_F_FREE_PAGE_HINTING)
    }

    /// Whether the guest reports free pages.
    pub open spec fn reports(self) -> bool {
        feature(self.avail_features, VIRTIO_BALLOON_F_FREE_PAGE_REPORTING)
    }

    /// Index of the hinting queue.
    pub open spec fn hinting_at(self) -> int {
        if self.polls() {
            3
        } else {
            2
        }
    }

    /// Index of the reporting queue.
    pub open spec fn reporting_at(self) -> int {
        if self.hints() {
            self.hinting_at() + 1
        } else {
            self.hinting_at()
        }
    }

    /// There is a queue for everything that is on offer and no other, all queues are well formed,
    /// and a kept chain belongs to the queue of statistics.
    pub open spec fn wf(self) -> bool {
        &&& self.queues@.len() == self.reporting_at() + (if self.reports() {
            1int
        } else {
            0
        })
        &&& forall|i: int| 0 <= i < self.queues@.len() ==> (#[trigger] self.queues@[i]).wf()
        &&& self.stats_desc_index matches Some(index) ==> self.polls() && index
            < self.queues@[2].size
    }

    /// The configuration that describes the balloon.
    pub open spec fn described(self) -> BalloonConfig {
        BalloonConfig {
            amount_mib: self.config_space.num_pages / MIB_TO_4K_PAGES,
            deflate_on_oom: feature(self.avail_features, VIRTIO_BALLOON_F_DEFLATE_ON_OOM),
            stats_polling_interval_s: self.stats_polling_interval_s,
            free_page_hinting: self.hints(),
            free_page_reporting: self.reports(),
        }
    }

    /// Whether two balloons differ in their queues alone.
    pub open spec fn same_but_queues(self, other: Balloon) -> bool {
        self == (Balloon { queues: self.queues, ..other })
    }

    /// Whether the balloon was just made as a configuration asks.
    pub open spec fn is_new(self, config: BalloonConfig) -> bool {
        &&& self.wf()
        &&& self.avail_features == offered(
            config.deflate_on_oom,
            config.stats_polling_interval_s > 0,
            config.free_page_hinting,
            config.free_page_reporting,
        )
        &&& self.acked_features == 0
        &&& self.config_space.num_pages == config.amount_mib * MIB_TO_4K_PAGES
        &&& self.config_space.actual_pages == 0
        &&& self.config_space.free_page_hint_cmd_id == FREE_PAGE_HINT_STOP
        &&& !self.activated
        &&& self.stats_polling_interval_s == config.stats_polling_interval_s
        &&& self.stats_desc_index is None
        &&& self.latest_stats == BalloonStats::blank()
        &&& self.hinting_state == (HintingState {
            host_cmd: 0,
            last_cmd_id: 0,
            guest_cmd: None,
            acknowledge_on_finish: false,
        })
        &&& forall|i: int|
            0 <= i < self.queues@.len() ==> (#[trigger] self.queues@[i]).is_fresh(
                FIRECRACKER_MAX_QUEUE_SIZE,
            )
        &&& self.described() == config
    }

    /// A balloon of a given size.
    pub fn new(
        amount_mib: u32,
        deflate_on_oom: bool,
        stats_polling_interval_s: u16,
        free_page_hinting: bool,
        free_page_reporting: bool,
    ) -> (r: Result<Balloon, BalloonError>)
        ensures
            amount_mib * MIB_TO_4K_PAGES > u32::MAX ==> r is Err && r->Err_0
                == BalloonError::TooMuchMemoryRequested(u32::MAX / MIB_TO_4K_PAGES),
            amount_mib * MIB_TO_4K_PAGES <= u32::MAX ==> {
                &&& r matches Ok(b)
                &&& b.is_new(
                    BalloonConfig {
                        amount_mib,
                        deflate_on_oom,
                        stats_polling_interval_s,
                        free_page_hinting,
                        free_page_reporting,
                    },
                )
            },
    {
        let stats: bool = stats_polling_interval_s > 0;
        let mut avail_features: u64 = 1u64 << VIRTIO_F_VERSION_1;
        if deflate_on_oom {
            avail_features = avail_features | (1u64 << VIRTIO_BALLOON_F_DEFLATE_ON_OOM);
        }
        let mut queue_count: usize = BALLOON_MIN_NUM_QUEUES;
        if stats {
            avail_features = avail_features | (1u64 << VIRTIO_BALLOON_F_STATS_VQ);
            queue_count = queue_count + 1;
        }
        if free_page_hinting {
            avail_features = avail_features | (1u64 << VIRTIO_BALLOON_F_FREE_PAGE_HINTING);
            queue_count = queue_count + 1;
        }
        if free_page_reporting {
            avail_features = avail_features | (1u64 << VIRTIO_BALLOON_F_FREE_PAGE_REPORTING);
            queue_count = queue_count + 1;
        }
        proof {
            assert forall|x: u64| x | 0u64 == x by {
                assert(x | 0u64 == x) by (bit_vector);
            }
            assert(avail_features == offered(
                deflate_on_oom,
                stats,
                free_page_hinting,
                free_page_reporting,
            ));
            law_features_as_asked(deflate_on_oom, stats, free_page_hinting, free_page_reporting);
        }
        let mut queues: Vec<Queue> = Vec::new();
        let mut i: usize = 0;
        while i < queue_count
            invariant
                i <= queue_count,
                queues@.len() == i,
                forall|k: int|
                    0 <= k < i ==> (#[trigger] queues@[k]).wf() && queues@[k].is_fresh(
                        FIRECRACKER_MAX_QUEUE_SIZE,
                    ),
            decreases queue_count - i,
        {
            queues.push(Queue::new(FIRECRACKER_MAX_QUEUE_SIZE));
            i = i + 1;
        }
        let num_pages: u32 = match mib_to_pages(amount_mib) {
            Ok(num_pages) => num_pages,
            Err(e) => {
                return Err(e);
            },
        };
        Ok(
            Balloon {
                avail_features,
                acked_features: 0,
                config_space: ConfigSpace {
                    num_pages,
                    actual_pages: 0,
                    free_page_hint_cmd_id: FREE_PAGE_HINT_STOP,
                },
                queues,
                activated: false,
                stats_polling_interval_s,
                stats_desc_index: None,
                latest_stats: BalloonStats::default(),
                hinting_state: HintingState {
                    host_cmd: 0,
                    last_cmd_id: 0,
                    guest_cmd: None,
                    acknowledge_on_finish: false,
                },
            },
        )
    }

    /// Whether the guest hints at free pages.
    pub fn free_page_hinting(&self) -> (r: bool)
        ensures
            r == self.hints(),
    {
        has_feature(self.avail_features, VIRTIO_BALLOON_F_FREE_PAGE_HINTING)
    }

    /// Index of the hinting queue.
    pub fn free_page_hinting_idx(&self) -> (r: usize)
        ensures
            r == self.hinting_at(),
    {
        let mut idx: usize = BALLOON_MIN_NUM_QUEUES;
        if self.stats_polling_interval_s > 0 {
            idx = idx + 1;
        }
        idx
    }

    /// Whether the guest reports free pages.
    pub fn free_page_reporting(&self) -> (r: bool)
        ensures
            r == self.reports(),
    {
        has_feature(self.avail_features, VIRTIO_BALLOON_F_FREE_PAGE_REPORTING)
    }

    /// Index of the reporting queue.
    pub fn free_page_reporting_idx(&self) -> (r: usize)
        ensures
            r == self.reporting_at(),
    {
        let mut idx: usize = self.free_page_hinting_idx();
        if self.free_page_hinting() {
            idx = idx + 1;
        }
        idx
    }

    /// Whether work on the deflation queue asks for no interrupt that the device cannot give: it is
    /// active, or no chain of the queue can be taken.
    pub open spec fn can_deflate(self) -> bool {
        ||| self.activated
        ||| self.queues@[1].pending() == 0
        ||| self.queues@[1].pending() > self.queues@[1].size
    }

    /// Works on the inflation queue.
    pub fn process_inflate(&mut self, mem: &GuestMemory) -> (r: QueueOutcome)
        requires
            old(self).wf(),
            mem.wf(),
        ensures
            final(self).wf(),
            final(self).same_but_queues(*old(self)),
            !old(self).activated ==> final(self).queues == old(self).queues && r.result == Err::<
                (),
                _,
            >(BalloonError::DeviceNotActive) && r.discards@.len() == 0 && !r.interrupt,
            old(self).activated ==> {
                &&& inflate_done(old(self).queues@[0], final(self).queues@[0], *mem, r)
                &&& final(self).queues@ == old(self).queues@.update(0, final(self).queues@[0])
            },
    {
        if !self.activated {
            return QueueOutcome {
                discards: Vec::new(),
                interrupt: false,
                result: Err(BalloonError::DeviceNotActive),
            };
        }
        process_inflate(&mut self.queues[INFLATE_INDEX], mem)
    }

    /// Works on the deflation queue. An interrupt can only be asked for by an active device.
    pub fn process_deflate_queue(&mut self) -> (r: QueueOutcome)
        requires
            old(self).wf(),
            old(self).can_deflate(),
        ensures
            final(self).wf(),
            final(self).same_but_queues(*old(self)),
            deflate_done(old(self).queues@[1], final(self).queues@[1], r),
            final(self).queues@ == old(self).queues@.update(1, final(self).queues@[1]),
    {
        process_deflate_queue(&mut self.queues[DEFLATE_INDEX])
    }

    /// Works on the queue of statistics.
    pub fn process_stats_queue(&mut self, mem: &GuestMemory) -> (r: QueueOutcome)
        requires
            old(self).wf(),
            old(self).polls(),
            old(self).activated,
            mem.wf(),
        ensures
            final(self).wf(),
            *final(self) == (Balloon {
                queues: final(self).queues,
                latest_stats: final(self).latest_stats,
                stats_desc_index: final(self).stats_desc_index,
                ..*old(self)
            }),
            stats_done(
                old(self).queues@[2],
                final(self).queues@[2],
                *mem,
                (old(self).latest_stats, final(self).latest_stats),
                (old(self).stats_desc_index, final(self).stats_desc_index),
                r,
            ),
            final(self).queues@ == old(self).queues@.update(2, final(self).queues@[2]),
    {
        process_stats_queue(
            &mut self.queues[STATS_INDEX],
            mem,
            &mut self.latest_stats,
            &mut self.stats_desc_index,
        )
    }

    /// Works on the hinting queue. The second part of the answer says whether the guest is to be
    /// interrupted for a change of the configuration: where the guest ended the run and its end is
    /// acknowledged by itself, the command becomes that the run is over.
    pub fn process_free_page_hinting_queue(&mut self, mem: &GuestMemory) -> (r: (
        QueueOutcome,
        bool,
    ))
        requires
            old(self).wf(),
            old(self).hints(),
            mem.wf(),
        ensures
            final(self).wf(),
            !old(self).activated ==> *final(self) == *old(self) && r.0.result == Err::<(), _>(
                BalloonError::DeviceNotActive,
            ) && r.0.discards@.len() == 0 && !r.0.interrupt && !r.1,
            old(self).activated ==> {
                let at = old(self).hinting_at();
                &&& hinting_done(
                    old(self).queues@[at],
                    final(self).queues@[at],
                    *mem,
                    old(self).hinting_state.host_cmd,
                    (old(self).hinting_state.guest_cmd, final(self).hinting_state.guest_cmd),
                    (r.0, r.1 || (r.0.result is Ok && ended(*old(self), *mem))),
                )
                &&& r.1 == (r.0.result is Ok && ended(*old(self), *mem) && old(
                    self,
                ).hinting_state.acknowledge_on_finish)
                &&& final(self).queues@ == old(self).queues@.update(at, final(self).queues@[at])
                &&& *final(self) == (Balloon {
                    queues: final(self).queues,
                    hinting_state: HintingState {
                        guest_cmd: final(self).hinting_state.guest_cmd,
                        host_cmd: if r.1 {
                            FREE_PAGE_HINT_DONE
                        } else {
                            old(self).hinting_state.host_cmd
                        },
                        ..old(self).hinting_state
                    },
                    config_space: ConfigSpace {
                        free_page_hint_cmd_id: if r.1 {
                            FREE_PAGE_HINT_DONE
                        } else {
                            old(self).config_space.free_page_hint_cmd_id
                        },
                        ..old(self).config_space
                    },
                    ..*old(self)
                })
            },
    {
        if !self.activated {
            return (
                QueueOutcome {
                    discards: Vec::new(),
                    interrupt: false,
                    result: Err(BalloonError::DeviceNotActive),
                },
                false,
            );
        }
        let idx: usize = self.free_page_hinting_idx();
        let host_cmd: u32 = self.hinting_state.host_cmd;
        let (outcome, complete) = process_free_page_hinting_queue(
            &mut self.queues[idx],
            mem,
            host_cmd,
            &mut self.hinting_state.guest_cmd,
        );
        assert(outcome.result is Ok ==> complete == ended(*old(self), *mem));
        let acknowledge: bool = complete && self.hinting_state.acknowledge_on_finish;
        if acknowledge {
            let _ = self.update_free_page_hint_cmd(FREE_PAGE_HINT_DONE);
        }
        (outcome, acknowledge)
    }

    /// Works on the reporting queue.
    pub fn process_free_page_reporting_queue(&mut self) -> (r: QueueOutcome)
        requires
            old(self).wf(),
            old(self).reports(),
        ensures
            final(self).wf(),
            final(self).same_but_queues(*old(self)),
            !old(self).activated ==> final(self).queues == old(self).queues && r.result == Err::<
                (),
                _,
            >(BalloonError::DeviceNotActive) && r.discards@.len() == 0 && !r.interrupt,
            old(self).activated ==> {
                let at = old(self).reporting_at();
                &&& reporting_done(old(self).queues@[at], final(self).queues@[at], r)
                &&& final(self).queues@ == old(self).queues@.update(at, final(self).queues@[at])
            },
    {
        if !self.activated {
            return QueueOutcome {
                discards: Vec::new(),
                interrupt: false,
                result: Err(BalloonError::DeviceNotActive),
            };
        }
        let idx: usize = self.free_page_reporting_idx();
        process_free_page_reporting_queue(&mut self.queues[idx])
    }

    /// Works on all queues but that of statistics, and stops at the first one that is broken.
    pub fn process_virtio_queues(&mut self, mem: &GuestMemory) -> (r: QueuesOutcome)
        requires
            old(self).wf(),
            old(self).can_deflate(),
            mem.wf(),
        ensures
            final(self).wf(),
            if old(self).activated {
                inflate_done(old(self).queues@[0], final(self).queues@[0], *mem, r.inflate)
            } else {
                not_active(r.inflate) && final(self).queues@[0] == old(self).queues@[0]
            },
            r.deflate is Some == !broken(r.inflate.result),
            r.deflate matches Some(d) ==> deflate_done(
                old(self).queues@[1],
                final(self).queues@[1],
                d,
            ),
            r.hinting is Some == (old(self).hints() && r.deflate is Some && !broken(
                r.deflate->Some_0.result,
            )),
            !old(self).activated ==> (r.hinting matches Some(h) ==> not_active(h.0) && !h.1
                && final(self).queues@[old(self).hinting_at()] == old(self).queues@[old(
                self,
            ).hinting_at()] && final(self).hinting_state.guest_cmd == old(
                self,
            ).hinting_state.guest_cmd),
            old(self).activated ==> (r.hinting matches Some(h) ==> {
                let at = old(self).hinting_at();
                &&& hinting_done(
                    old(self).queues@[at],
                    final(self).queues@[at],
                    *mem,
                    old(self).hinting_state.host_cmd,
                    (old(self).hinting_state.guest_cmd, final(self).hinting_state.guest_cmd),
                    (h.0, h.1 || (h.0.result is Ok && ended(*old(self), *mem))),
                )
                &&& h.1 == (h.0.result is Ok && ended(*old(self), *mem) && old(
                    self,
                ).hinting_state.acknowledge_on_finish)
            }),
            r.reporting is Some == (old(self).reports() && r.deflate is Some && !broken(
                r.deflate->Some_0.result,
            ) && (r.hinting matches Some(h) ==> !broken(h.0.result))),
            !old(self).activated ==> (r.reporting matches Some(p) ==> not_active(p)
                && final(self).queues@[old(self).reporting_at()] == old(self).queues@[old(
                self,
            ).reporting_at()]),
            old(self).activated ==> (r.reporting matches Some(p) ==> reporting_done(
                old(self).queues@[old(self).reporting_at()],
                final(self).queues@[old(self).reporting_at()],
                p,
            )),
            r.deflate is None ==> final(self).queues@[1] == old(self).queues@[1],
            final(self).queues@.len() == old(self).queues@.len(),
            forall|i: int|
                2 <= i < old(self).queues@.len() ==> {
                    ||| #[trigger] final(self).queues@[i] == old(self).queues@[i]
                    ||| r.hinting is Some && i == old(self).hinting_at()
                    ||| r.reporting is Some && i == old(self).reporting_at()
                },
            r.hinting is None ==> final(self).hinting_state.guest_cmd == old(
                self,
            ).hinting_state.guest_cmd,
            ({
                let finished = r.hinting matches Some(h) && h.1;
                *final(self) == (Balloon {
                    queues: final(self).queues,
                    hinting_state: HintingState {
                        guest_cmd: final(self).hinting_state.guest_cmd,
                        host_cmd: if finished {
                            FREE_PAGE_HINT_DONE
                        } else {
                            old(self).hinting_state.host_cmd
                        },
                        ..old(self).hinting_state
                    },
                    config_space: ConfigSpace {
                        free_page_hint_cmd_id: if finished {
                            FREE_PAGE_HINT_DONE
                        } else {
                            old(self).config_space.free_page_hint_cmd_id
                        },
                        ..old(self).config_space
                    },
                    ..*old(self)
                })
            }),
            r.result == (if broken(r.inflate.result) {
                Err(breakage(r.inflate.result))
            } else if broken(r.deflate->Some_0.result) {
                Err(breakage(r.deflate->Some_0.result))
            } else if r.hinting is Some && broken(r.hinting->Some_0.0.result) {
                Err(breakage(r.hinting->Some_0.0.result))
            } else if r.reporting is Some && broken(r.reporting->Some_0.result) {
                Err(breakage(r.reporting->Some_0.result))
            } else {
                Ok(())
            }),
    {
        let inflate = self.process_inflate(mem);
        if let Some(e) = breakage_of(&inflate.result) {
            return QueuesOutcome {
                inflate,
                deflate: None,
                hinting: None,
                reporting: None,
                result: Err(e),
            };
        }
        let deflate = self.process_deflate_queue();
        if let Some(e) = breakage_of(&deflate.result) {
            return QueuesOutcome {
                inflate,
                deflate: Some(deflate),
                hinting: None,
                reporting: None,
                result: Err(e),
            };
        }
        let mut hinting: Option<(QueueOutcome, bool)> = None;
        if self.free_page_hinting() {
            let h = self.process_free_page_hinting_queue(mem);
            let stopped = breakage_of(&h.0.result);
            hinting = Some(h);
            if let Some(e) = stopped {
                return QueuesOutcome {
                    inflate,
                    deflate: Some(deflate),
                    hinting,
                    reporting: None,
                    result: Err(e),
                };
            }
        }
        let mut reporting: Option<QueueOutcome> = None;
        if self.free_page_reporting() {
            let p = self.process_free_page_reporting_queue();
            let stopped = breakage_of(&p.result);
            reporting = Some(p);
            if let Some(e) = stopped {
                return QueuesOutcome {
                    inflate,
                    deflate: Some(deflate),
                    hinting,
                    reporting,
                    result: Err(e),
                };
            }
        }
        QueuesOutcome { inflate, deflate: Some(deflate), hinting, reporting, result: Ok(()) }
    }

    /// Asks the guest for statistics by giving the kept chain back. The answer says whether the
    /// guest is to be interrupted for the queue of statistics.
    pub fn trigger_stats_update(&mut self) -> (r: bool)
        requires
            old(self).wf(),
        ensures
            final(self).wf(),
            r == old(self).stats_desc_index is Some,
            final(self).stats_desc_index is None,
            *final(self) == (Balloon {
                queues: final(self).queues,
                stats_desc_index: None,
                ..*old(self)
            }),
            !r ==> final(self).queues == old(self).queues,
            r ==> {
                let before = old(self).queues@[2];
                let after = final(self).queues@[2];
                &&& final(self).queues@ == old(self).queues@.update(2, after)
                &&& after.same_avail(before)
                &&& after.staged == before.staged
                &&& after.used@ == before.used@.push(
                    UsedElement { id: old(self).stats_desc_index->Some_0, len: 0 },
                )
                &&& after.published == after.used@.len()
            },
    {
        match self.stats_desc_index.take() {
            Some(index) => {
                let queue = &mut self.queues[STATS_INDEX];
                let _ = queue.add_used(index, 0);
                queue.advance_used_ring_idx();
                true
            },
            None => false,
        }
    }

    /// Sets the target size. If it is accepted, the guest is to be interrupted for a change of the
    /// configuration.
    pub fn update_size(&mut self, amount_mib: u32, mem_size_mib: u64) -> (r: Result<
        (),
        BalloonError,
    >)
        ensures
            r == (if !old(self).activated {
                Err(BalloonError::DeviceNotActive)
            } else if amount_mib > mem_size_mib {
                Err(BalloonError::TooMuchMemoryRequested(amount_mib))
            } else if amount_mib * MIB_TO_4K_PAGES > u32::MAX {
                Err(BalloonError::TooMuchMemoryRequested(u32::MAX / MIB_TO_4K_PAGES))
            } else {
                Ok(())
            }),
            r is Err ==> *final(self) == *old(self),
            r is Ok ==> *final(self) == (Balloon {
                config_space: ConfigSpace {
                    num_pages: (amount_mib * MIB_TO_4K_PAGES) as u32,
                    ..old(self).config_space
                },
                ..*old(self)
            }),
    {
        if !self.activated {
            return Err(BalloonError::DeviceNotActive);
        }
        // The balloon cannot be larger than the memory of the guest.
        if amount_mib as u64 > mem_size_mib {
            return Err(BalloonError::TooMuchMemoryRequested(amount_mib));
        }
        match mib_to_pages(amount_mib) {
            Ok(num_pages) => {
                self.config_space.num_pages = num_pages;
                Ok(())
            },
            Err(e) => Err(e),
        }
    }

    /// Sets how often statistics are polled. Polling cannot be switched on or off.
    pub fn update_stats_polling_interval(&mut self, interval_s: u16) -> (r: Result<
        StatsUpdate,
        BalloonError,
    >)
        requires
            old(self).wf(),
        ensures
            final(self).wf(),
            r is Err <==> old(self).stats_polling_interval_s != interval_s && (old(
                self,
            ).stats_polling_interval_s == 0 || interval_s == 0),
            r is Err ==> r->Err_0 == BalloonError::StatisticsStateChange && *final(self) == *old(
                self,
            ),
            r is Ok && old(self).stats_polling_interval_s == interval_s ==> *final(self) == *old(
                self,
            ) && r->Ok_0 == (StatsUpdate { interrupt: false, timer_s: None }),
            r is Ok && old(self).stats_polling_interval_s != interval_s ==> {
                &&& r->Ok_0.interrupt == old(self).stats_desc_index is Some
                &&& r->Ok_0.timer_s == Some(interval_s)
                &&& *final(self) == (Balloon {
                    queues: final(self).queues,
                    stats_desc_index: None,
                    stats_polling_interval_s: interval_s,
                    ..*old(self)
                })
                &&& old(self).stats_desc_index is None ==> final(self).queues == old(self).queues
                &&& old(self).stats_desc_index matches Some(index) ==> {
                    let before = old(self).queues@[2];
                    let after = final(self).queues@[2];
                    &&& final(self).queues@ == old(self).queues@.update(2, after)
                    &&& after.same_avail(before)
                    &&& after.staged == before.staged
                    &&& after.used@ == before.used@.push(UsedElement { id: index, len: 0 })
                    &&& after.published == after.used@.len()
                }
            },
    {
        if self.stats_polling_interval_s == interval_s {
            return Ok(StatsUpdate { interrupt: false, timer_s: None });
        }
        if self.stats_polling_interval_s == 0 || interval_s == 0 {
            return Err(BalloonError::StatisticsStateChange);
        }
        let interrupt: bool = self.trigger_stats_update();
        self.stats_polling_interval_s = interval_s;
        Ok(StatsUpdate { interrupt, timer_s: Some(interval_s) })
    }

    /// The number of 4K pages that the device holds now.
    pub fn num_pages(&self) -> (r: u32)
        ensures
            r == self.config_space.actual_pages,
    {
        self.config_space.actual_pages
    }

    /// The size of what the device holds now, in MiB.
    pub fn size_mb(&self) -> (r: u32)
        ensures
            r == self.config_space.actual_pages / MIB_TO_4K_PAGES,
    {
        pages_to_mib(self.config_space.actual_pages)
    }

    /// The size that the device is to reach, in MiB.
    pub fn target_mb(&self) -> (r: u32)
        ensures
            r == self.config_space.num_pages / MIB_TO_4K_PAGES,
    {
        pages_to_mib(self.config_space.num_pages)
    }

    /// Whether the guest takes pages back when it runs out of memory.
    pub fn deflate_on_oom(&self) -> (r: bool)
        ensures
            r == feature(self.avail_features, VIRTIO_BALLOON_F_DEFLATE_ON_OOM),
    {
        has_feature(self.avail_features, VIRTIO_BALLOON_F_DEFLATE_ON_OOM)
    }

    /// How often statistics are polled, in seconds.
    pub fn stats_polling_interval_s(&self) -> (r: u16)
        ensures
            r == self.stats_polling_interval_s,
    {
        self.stats_polling_interval_s
    }

    /// Whether statistics are polled.
    pub fn stats_enabled(&self) -> (r: bool)
        ensures
            r == self.polls(),
    {
        self.stats_polling_interval_s > 0
    }

    /// The latest statistics, with the sizes as they are now.
    pub fn latest_stats(&mut self) -> (r: Result<BalloonStats, BalloonError>)
        ensures
            !old(self).polls() ==> r is Err && r->Err_0 == BalloonError::StatisticsDisabled
                && *final(self) == *old(self),
            old(self).polls() ==> {
                let c = old(self).config_space;
                &&& r is Ok
                &&& r->Ok_0 == (BalloonStats {
                    target_pages: c.num_pages,
                    actual_pages: c.actual_pages,
                    target_mib: c.num_pages / MIB_TO_4K_PAGES,
                    actual_mib: c.actual_pages / MIB_TO_4K_PAGES,
                    ..old(self).latest_stats
                })
                &&& *final(self) == (Balloon { latest_stats: r->Ok_0, ..*old(self) })
            },
    {
        if self.stats_enabled() {
            self.latest_stats.target_pages = self.config_space.num_pages;
            self.latest_stats.actual_pages = self.config_space.actual_pages;
            self.latest_stats.target_mib = pages_to_mib(self.latest_stats.target_pages);
            self.latest_stats.actual_mib = pages_to_mib(self.latest_stats.actual_pages);
            Ok(self.latest_stats)
        } else {
            Err(BalloonError::StatisticsDisabled)
        }
    }

    /// Sets the hinting command. If it is accepted, the guest is to be interrupted for a change of
    /// the configuration.
    pub fn update_free_page_hint_cmd(&mut self, cmd_id: u32) -> (r: Result<(), BalloonError>)
        ensures
            r == (if old(self).activated {
                Ok(())
            } else {
                Err(BalloonError::DeviceNotActive)
            }),
            r is Err ==> *final(self) == *old(self),
            r is Ok ==> *final(self) == (Balloon {
                hinting_state: HintingState { host_cmd: cmd_id, ..old(self).hinting_state },
                config_space: ConfigSpace {
                    free_page_hint_cmd_id: cmd_id,
                    ..old(self).config_space
                },
                ..*old(self)
            }),
    {
        if !self.activated {
            return Err(BalloonError::DeviceNotActive);
        }
        self.hinting_state.host_cmd = cmd_id;
        self.config_space.free_page_hint_cmd_id = cmd_id;
        Ok(())
    }

    /// Starts a hinting run under a new command. If it is accepted, the guest is to be interrupted
    /// for a change of the configuration.
    pub fn start_hinting(&mut self, cmd: StartHintingCmd) -> (r: Result<(), BalloonError>)
        ensures
            r == (if !old(self).hints() {
                Err(BalloonError::HintingNotEnabled)
            } else if !old(self).activated {
                Err(BalloonError::DeviceNotActive)
            } else {
                Ok(())
            }),
            !old(self).hints() ==> *final(self) == *old(self),
            old(self).hints() ==> {
                let id = next_hinting_cmd(old(self).hinting_state.last_cmd_id);
                &&& *final(self) == (Balloon {
                    hinting_state: HintingState {
                        acknowledge_on_finish: cmd.acknowledge_on_stop,
                        last_cmd_id: id,
                        host_cmd: if old(self).activated {
                            id
                        } else {
                            old(self).hinting_state.host_cmd
                        },
                        ..old(self).hinting_state
                    },
                    config_space: ConfigSpace {
                        free_page_hint_cmd_id: if old(self).activated {
                            id
                        } else {
                            old(self).config_space.free_page_hint_cmd_id
                        },
                        ..old(self).config_space
                    },
                    ..*old(self)
                })
            },
    {
        if !self.free_page_hinting() {
            return Err(BalloonError::HintingNotEnabled);
        }
        let mut cmd_id: u32 = self.hinting_state.last_cmd_id.wrapping_add(1);
        // Zero and one are reserved.
        if cmd_id <= 1 {
            cmd_id = 2;
        }
        self.hinting_state.acknowledge_on_finish = cmd.acknowledge_on_stop;
        self.hinting_state.last_cmd_id = cmd_id;
        self.update_free_page_hint_cmd(cmd_id)
    }

    /// The commands of the hinting run.
    pub fn get_hinting_status(&self) -> (r: Result<HintingStatus, BalloonError>)
        ensures
            r == (if self.hints() {
                Ok(
                    HintingStatus {
                        host_cmd: self.hinting_state.host_cmd,
                        guest_cmd: self.hinting_state.guest_cmd,
                    },
                )
            } else {
                Err(BalloonError::HintingNotEnabled)
            }),
    {
        if !self.free_page_hinting() {
            return Err(BalloonError::HintingNotEnabled);
        }
        Ok(
            HintingStatus {
                host_cmd: self.hinting_state.host_cmd,
                guest_cmd: self.hinting_state.guest_cmd,
            },
        )
    }

    /// Ends the hinting run, so that the guest takes the hinted pages back.
    pub fn stop_hinting(&mut self) -> (r: Result<(), BalloonError>)
        ensures
            r == (if !old(self).hints() {
                Err(BalloonError::HintingNotEnabled)
            } else if !old(self).activated {
                Err(BalloonError::DeviceNotActive)
            } else {
                Ok(())
            }),
            r is Err ==> *final(self) == *old(self),
            r is Ok ==> *final(self) == (Balloon {
                hinting_state: HintingState {
                    host_cmd: FREE_PAGE_HINT_DONE,
                    ..old(self).hinting_state
                },
                config_space: ConfigSpace {
                    free_page_hint_cmd_id: FREE_PAGE_HINT_DONE,
                    ..old(self).config_space
                },
                ..*old(self)
            }),
    {
        if !self.free_page_hinting() {
            Err(BalloonError::HintingNotEnabled)
        } else {
            self.update_free_page_hint_cmd(FREE_PAGE_HINT_DONE)
        }
    }

    /// The configuration of the balloon.
    pub fn config(&self) -> (r: BalloonConfig)
        ensures
            r == self.described(),
    {
        BalloonConfig {
            amount_mib: self.target_mb(),
            deflate_on_oom: self.deflate_on_oom(),
            stats_polling_interval_s: self.stats_polling_interval_s(),
            free_page_hinting: self.free_page_hinting(),
            free_page_reporting: self.free_page_reporting(),
        }
    }

    /// The bytes of the configuration space.
    pub fn config_as_bytes(&self) -> (r: Vec<u8>)
        ensures
            r@ == self.config_space.bytes(),
    {
        let mut b: Vec<u8> = to_le32(self.config_space.num_pages);
        let mut actual: Vec<u8> = to_le32(self.config_space.actual_pages);
        let mut cmd: Vec<u8> = to_le32(self.config_space.free_page_hint_cmd_id);
        b.append(&mut actual);
        b.append(&mut cmd);
        b
    }

    /// Writes to the configuration space. A write that does not lie inside has no effect, and the
    /// answer is `false`.
    pub fn write_config(&mut self, offset: u64, data: &[u8]) -> (r: bool)
        ensures
            r == (offset + data@.len() <= 12),
            *final(self) == (Balloon {
                config_space: ConfigSpace::of_bytes(
                    config_written(old(self).config_space.bytes(), offset, data@),
                ),
                ..*old(self)
            }),
    {
        let mut space: Vec<u8> = self.config_as_bytes();
        let inside: bool = write_config_bytes(&mut space, offset, data);
        self.config_space = ConfigSpace {
            num_pages: read_le32(space.as_slice(), 0),
            actual_pages: read_le32(space.as_slice(), 4),
            free_page_hint_cmd_id: read_le32(space.as_slice(), 8),
        };
        inside
    }

    /// Makes the device active, given that its queues are in guest memory and that the event loop was
    /// told. The answer is the interval in seconds with which the timer is to be armed.
    pub fn activate(&mut self, queues_found: bool, event_sent: bool) -> (r: Result<
        Option<u16>,
        ActivateError,
    >)
        requires
            !old(self).activated,
        ensures
            r == (if !queues_found {
                Err(ActivateError::QueueMemoryError)
            } else if !event_sent {
                Err(ActivateError::EventFd)
            } else if old(self).polls() {
                Ok(Some(old(self).stats_polling_interval_s))
            } else {
                Ok(None)
            }),
            *final(self) == (Balloon { activated: r is Ok, ..*old(self) }),
    {
        if !queues_found {
            return Err(ActivateError::QueueMemoryError);
        }
        if !event_sent {
            return Err(ActivateError::EventFd);
        }
        self.activated = true;
        if self.stats_enabled() {
            Ok(Some(self.stats_polling_interval_s))
        } else {
            Ok(None)
        }
    }

    /// Wakes the device up. A hinting run does not outlive a pause.
    pub fn kick(&mut self) -> (r: KickOutcome)
        ensures
            r.notify_queues == old(self).activated,
            r.config_interrupt == (old(self).activated && old(self).hints()),
            !r.config_interrupt ==> *final(self) == *old(self),
            r.config_interrupt ==> *final(self) == (Balloon {
                hinting_state: HintingState {
                    host_cmd: FREE_PAGE_HINT_DONE,
                    ..old(self).hinting_state
                },
                config_space: ConfigSpace {
                    free_page_hint_cmd_id: FREE_PAGE_HINT_DONE,
                    ..old(self).config_space
                },
                ..*old(self)
            }),
    {
        if !self.activated {
            return KickOutcome { config_interrupt: false, notify_queues: false };
        }
        let hinting: bool = self.free_page_hinting();
        if hinting {
            let _ = self.update_free_page_hint_cmd(FREE_PAGE_HINT_DONE);
        }
        KickOutcome { config_interrupt: hinting, notify_queues: true }
    }
}

/// Whether the guest ends the hinting run by the chains that wait.
pub open spec fn ended(b: Balloon, mem: GuestMemory) -> bool {
    crate::devices::virtio::balloon::queues::hint_run(
        b.queues@[b.hinting_at()].waiting(),
        mem,
        b.hinting_state.host_cmd,
        crate::devices::virtio::balloon::queues::HintProgress {
            guest_cmd: b.hinting_state.guest_cmd,
            complete: false,
        },
    ).1.progress.complete
}

/// The command that follows a given one.
pub open spec fn next_hinting_cmd(last: u32) -> u32 {
    if last == u32::MAX || last == 0 {
        2
    } else {
        (last + 1) as u32
    }
}

/// A hinting run never has a reserved command, and never that of the run before it.
pub proof fn law_hinting_commands(last: u32)
    ensures
        next_hinting_cmd(last) != FREE_PAGE_HINT_STOP,
        next_hinting_cmd(last) != FREE_PAGE_HINT_DONE,
        next_hinting_cmd(last) != last,
{
}

/// The bytes of a configuration space give it back.
pub proof fn law_config_space_round_trip(c: ConfigSpace)
    ensures
        ConfigSpace::of_bytes(c.bytes()) == c,
{
    assert(c.bytes().subrange(0, 4) =~= bytes32(c.num_pages));
    assert(c.bytes().subrange(4, 8) =~= bytes32(c.actual_pages));
    assert(c.bytes().subrange(8, 12) =~= bytes32(c.free_page_hint_cmd_id));
    crate::vstate::guest_memory::law_bytes32_round_trip(c.num_pages);
    crate::vstate::guest_memory::law_bytes32_round_trip(c.actual_pages);
    crate::vstate::guest_memory::law_bytes32_round_trip(c.free_page_hint_cmd_id);
}

/// The target size of a balloon counts pages of 4096 bytes and is as large as was asked for.
pub proof fn law_target_is_as_asked(b: Balloon, config: BalloonConfig)
    requires
        b.is_new(config),
    ensures
        b.config_space.num_pages * 4096 == config.amount_mib * 1024 * 1024,
        b.config_space.actual_pages == 0,
        b.described().amount_mib == config.amount_mib,
        b.described().stats_polling_interval_s == config.stats_polling_interval_s,
        b.described().deflate_on_oom == config.deflate_on_oom,
        b.described().free_page_hinting == config.free_page_hinting,
        b.described().free_page_reporting == config.free_page_reporting,
{
}

/// The configuration space of a balloon holds the target size first, then the current size, then
/// the command of the hinting run.
pub proof fn law_configuration_of_a_balloon(c: ConfigSpace)
    ensures
        c.bytes().len() == 12,
        le32(c.bytes().subrange(0, 4)) == c.num_pages,
        le32(c.bytes().subrange(4, 8)) == c.actual_pages,
        le32(c.bytes().subrange(8, 12)) == c.free_page_hint_cmd_id,
{
    let b = c.bytes();
    assert(b.subrange(0, 4) =~= bytes32(c.num_pages));
    assert(b.subrange(4, 8) =~= bytes32(c.actual_pages));
    assert(b.subrange(8, 12) =~= bytes32(c.free_page_hint_cmd_id));
    crate::vstate::guest_memory::law_bytes32_round_trip(c.num_pages);
    crate::vstate::guest_memory::law_bytes32_round_trip(c.actual_pages);
    crate::vstate::guest_memory::law_bytes32_round_trip(c.free_page_hint_cmd_id);
}

/// The queues of a balloon are in order: inflation, deflation, statistics if they are polled,
/// hinting if it is offered, and reporting if it is offered.
pub proof fn law_queues_of_a_balloon(b: Balloon)
    requires
        b.wf(),
    ensures
        b.queues@.len() == 2 + (if b.stats_polling_interval_s > 0 {
            1int
        } else {
            0
        }) + (if b.avail_features & (1u64 << 3) != 0 {
            1int
        } else {
            0
        }) + (if b.avail_features & (1u64 << 5) != 0 {
            1int
        } else {
            0
        }),
        b.hinting_at() == (if b.stats_polling_interval_s > 0 {
            3int
        } else {
            2
        }),
        b.avail_features & (1u64 << 5) != 0 ==> b.reporting_at() == b.queues@.len() - 1,
{
}

/// A new balloon has seen nothing of its guest yet: no statistics, no buffer for them, no run of
/// hints, no feature that was accepted and no chain on any queue.
pub proof fn law_new_balloon_knows_nothing(b: Balloon, config: BalloonConfig, i: int)
    requires
        b.is_new(config),
    ensures
        b.stats_desc_index is None,
        b.latest_stats.free_memory is None,
        b.latest_stats.total_memory is None,
        b.acked_features == 0,
        !b.activated,
        b.config_space.free_page_hint_cmd_id == 0,
        b.hinting_state.host_cmd == 0,
        b.hinting_state.last_cmd_id == 0,
        b.hinting_state.guest_cmd is None,
        !b.hinting_state.acknowledge_on_finish,
        0 <= i < b.queues@.len() ==> b.queues@[i].size == 256 && b.queues@[i].avail@.len() == 0
            && b.queues@[i].used@.len() == 0 && b.queues@[i].staged@.len() == 0
            && b.queues@[i].next_avail == 0 && b.queues@[i].published == 0,
{
    if 0 <= i < b.queues@.len() {
        assert(b.queues@[i].is_fresh(256));
    }
}

} // verus!
