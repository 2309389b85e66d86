//! Work on the queues of a balloon.

use vstd::prelude::*;

use crate::devices::virtio::balloon::util::{among, compact_page_frame_numbers, covered};
use crate::devices::virtio::queue::{
    empty_entries, ChainView, Descriptor, DescriptorChain, InvalidAvailIdx, Queue, QueueError,
    UsedElement,
};
use crate::vstate::guest_memory::{le16, le32, le64, read_le16, read_le64, GuestMemory};

verus! {

/// The most pages that one descriptor may name.
pub const MAX_PAGES_IN_DESC: usize = 256;

/// The most pages that are joined to ranges at once.
pub const MAX_PAGE_COMPACT_BUFFER: usize = 2048;

/// Binary logarithm of the size of a page.
pub const VIRTIO_BALLOON_PFN_SHIFT: u32 = 12;

/// Length of a page frame number in guest memory.
pub const SIZE_OF_U32: usize = 4;

/// Length of a statistic in guest memory.
pub const SIZE_OF_STAT: u32 = 10;

/// The longest buffer of statistics that is read.
pub const MAX_STATS_DESC_LEN: u32 = 2560;

/// Command: the guest may reclaim the pages that it hinted.
pub const FREE_PAGE_HINT_STOP: u32 = 0;

/// Command: the hinting run is over.
pub const FREE_PAGE_HINT_DONE: u32 = 1;

/// Why an operation on a balloon failed.
#[derive(Debug, Clone, Copy, PartialEq, Eq, Structural)]
pub enum BalloonError {
    /// The device is not active.
    DeviceNotActive,
    /// Free page hinting is not enabled.
    HintingNotEnabled,
    /// The driver made too many chains available.
    InvalidAvailIdx(InvalidAvailIdx),
    /// A descriptor cannot be read.
    MalformedDescriptor,
    /// The used ring refused an entry.
    Queue(QueueError),
    /// Statistics cannot be switched on or off after the start.
    StatisticsStateChange,
    /// Statistics are disabled.
    StatisticsDisabled,
    /// The balloon would be larger than this many MiB.
    TooMuchMemoryRequested(u32),
}

/// A range of guest memory that is to be given back to the host.
#[derive(Debug, Clone, Copy, PartialEq, Eq, Structural)]
pub struct DiscardRange {
    /// Guest address of the first byte.
    pub addr: u64,
    /// Number of bytes.
    pub len: u64,
}

/// What came of the work on a queue.
#[derive(Debug)]
pub struct QueueOutcome {
    /// Memory that is to be given back to the host, in order.
    pub discards: Vec<DiscardRange>,
    /// Whether the guest is to be interrupted.
    pub interrupt: bool,
    /// Whether the work came to its end.
    pub result: Result<(), BalloonError>,
}

/// The page frame numbers in a buffer of `n` of them.
pub open spec fn pfns_at(mem: GuestMemory, addr: int, n: int) -> Seq<u32> {
    Seq::new(n as nat, |i: int| le32(mem.bytes(addr + 4 * i, 4)))
}

/// What a batch of inflate requests leads to: how many chains are taken, which of them are used,
/// which pages are named, and whether the last chain is malformed.
pub struct InflateBatch {
    /// Chains that are taken.
    pub taken: nat,
    /// Heads of the chains that are used.
    pub used: Seq<u16>,
    /// Pages that are named, on top of those at the start.
    pub pfns: Seq<u32>,
    /// Whether a buffer of pages cannot be read.
    pub malformed: bool,
}

/// A batch of inflate requests, `held` pages being named before. A buffer that is not one of page
/// frame numbers is used without effect, one that names too many pages is dropped, and the batch
/// ends where the next buffer does not fit.
pub open spec fn inflate_batch(chains: Seq<ChainView>, mem: GuestMemory, held: int) -> InflateBatch
    decreases chains.len(),
{
    let stop = InflateBatch { taken: 0, used: seq![], pfns: seq![], malformed: false };
    if chains.len() == 0 {
        stop
    } else {
        let index = chains[0].index;
        let d = chains[0].descs[0];
        if d.write_only || d.len % 4 != 0 {
            let rest = inflate_batch(chains.skip(1), mem, held);
            InflateBatch { taken: rest.taken + 1, used: seq![index] + rest.used, ..rest }
        } else if d.len > MAX_PAGES_IN_DESC * 4 {
            let rest = inflate_batch(chains.skip(1), mem, held);
            InflateBatch { taken: rest.taken + 1, ..rest }
        } else if held + d.len / 4 > MAX_PAGE_COMPACT_BUFFER {
            stop
        } else if !mem.has_range(d.addr as int, d.len as int) {
            InflateBatch { taken: 1, malformed: true, ..stop }
        } else {
            let rest = inflate_batch(chains.skip(1), mem, held + d.len / 4);
            InflateBatch {
                taken: rest.taken + 1,
                used: seq![index] + rest.used,
                pfns: pfns_at(mem, d.addr as int, (d.len / 4) as int) + rest.pfns,
                malformed: rest.malformed,
            }
        }
    }
}

/// All batches of inflate requests. The pages of a batch that ends with a malformed buffer are
/// not given back.
pub open spec fn inflate_run(chains: Seq<ChainView>, mem: GuestMemory) -> InflateBatch
    decreases chains.len(),
{
    let batch = inflate_batch(chains, mem, 0);
    if batch.malformed {
        InflateBatch { pfns: seq![], ..batch }
    } else if 0 < batch.taken <= chains.len() {
        let rest = inflate_run(chains.skip(batch.taken as int), mem);
        InflateBatch {
            taken: batch.taken + rest.taken,
            used: batch.used + rest.used,
            pfns: batch.pfns + rest.pfns,
            malformed: rest.malformed,
        }
    } else {
        batch
    }
}

/// Whether some range that is given back holds a page.
pub open spec fn page_discarded(discards: Seq<DiscardRange>, page: int) -> bool {
    exists|i: int|
        0 <= i < discards.len() && (#[trigger] discards[i]).addr <= page * 4096 && page * 4096
            + 4096 <= discards[i].addr + discards[i].len
}

/// Whether ranges start and end at page boundaries and are not empty.
pub open spec fn whole_pages(discards: Seq<DiscardRange>) -> bool {
    forall|i: int|
        0 <= i < discards.len() ==> (#[trigger] discards[i]).addr % 4096 == 0 && discards[i].len
            % 4096 == 0 && discards[i].len > 0
}

proof fn lemma_waiting_step(queue: Queue)
    requires
        queue.wf(),
        queue.pending() > 0,
    ensures
        queue.waiting().len() == queue.pending(),
        queue.waiting()[0] == queue.avail@[queue.next_avail as int]@,
        queue.waiting().skip(1) == queue.avail@.skip(queue.next_avail + 1).map_values(
            |c: DescriptorChain| c@,
        ),
{
    assert(queue.waiting().skip(1) =~= queue.avail@.skip(queue.next_avail + 1).map_values(
        |c: DescriptorChain| c@,
    ));
}

proof fn lemma_waiting_skip(queue: Queue, n: int)
    requires
        queue.wf(),
        0 <= n <= queue.pending(),
    ensures
        queue.waiting().skip(n) == queue.avail@.skip(queue.next_avail + n).map_values(
            |c: DescriptorChain| c@,
        ),
{
    assert(queue.waiting().skip(n) =~= queue.avail@.skip(queue.next_avail + n).map_values(
        |c: DescriptorChain| c@,
    ));
}

proof fn lemma_batch_bounds(chains: Seq<ChainView>, mem: GuestMemory, held: int)
    requires
        0 <= held <= MAX_PAGE_COMPACT_BUFFER,
    ensures
        inflate_batch(chains, mem, held).taken <= chains.len(),
        held == 0 && chains.len() > 0 ==> inflate_batch(chains, mem, held).taken > 0,
        held + inflate_batch(chains, mem, held).pfns.len() <= MAX_PAGE_COMPACT_BUFFER,
    decreases chains.len(),
{
    if chains.len() > 0 {
        let d = chains[0].descs[0];
        if d.write_only || d.len % 4 != 0 || d.len > MAX_PAGES_IN_DESC * 4 {
            lemma_batch_bounds(chains.skip(1), mem, held);
        } else if held + d.len / 4 <= MAX_PAGE_COMPACT_BUFFER && mem.has_range(
            d.addr as int,
            d.len as int,
        ) {
            lemma_batch_bounds(chains.skip(1), mem, held + d.len / 4);
        }
    }
}

// Reads the page frame numbers in a buffer.
fn read_pfns(mem: &GuestMemory, addr: u64, len: usize, pfns: &mut Vec<u32>) -> (r: bool)
    requires
        mem.wf(),
        len % 4 == 0,
        len <= 1024,
    ensures
        r == mem.has_range(addr as int, len as int),
        r ==> final(pfns)@ == old(pfns)@ + pfns_at(*mem, addr as int, (len / 4) as int),
{
    let ghost before = pfns@;
    let mut index: usize = 0;
    assert(pfns@ =~= before + pfns_at(*mem, addr as int, 0));
    while index < len
        invariant
            mem.wf(),
            len % 4 == 0,
            index % 4 == 0,
            index <= len,
            len <= 1024,
            pfns@ == before + pfns_at(*mem, addr as int, (index / 4) as int),
            mem.has_range(addr as int, index as int),
        decreases len - index,
    {
        if index as u64 > u64::MAX - addr {
            proof {
                mem.lemma_in_address_space(addr + index);
                assert(!mem.has(addr + index));
            }
            return false;
        }
        match mem.read_u32(addr + index as u64) {
            None => {
                proof {
                    let a = choose|a: int| addr + index <= a < addr + index + 4 && !#[trigger] mem.has(
                        a,
                    );
                    assert(!mem.has(a));
                }
                return false;
            },
            Some(pfn) => {
                pfns.push(pfn);
                proof {
                    assert forall|a: int| addr <= a < addr + index + 4 implies #[trigger] mem.has(
                        a,
                    ) by {}
                    let i = (index / 4) as int;
                    assert(4 * i == index);
                    assert((index + 4) / 4 == i + 1);
                    assert(pfns@ =~= before + pfns_at(*mem, addr as int, i + 1));
                }
            },
        }
        index = index + 4;
    }
    true
}

// Works on one batch of inflate requests.
fn process_inflate_batch(queue: &mut Queue, mem: &GuestMemory, pfns: &mut Vec<u32>) -> (r: Result<
    bool,
    BalloonError,
>)
    requires
        old(queue).wf(),
        mem.wf(),
        old(pfns)@.len() == 0,
    ensures
        final(queue).wf(),
        final(queue).size == old(queue).size,
        final(queue).avail == old(queue).avail,
        final(queue).staged == old(queue).staged,
        final(queue).published == old(queue).published,
        final(queue).notify == old(queue).notify,
        old(queue).pending() > old(queue).size ==> {
            &&& r matches Err(BalloonError::InvalidAvailIdx(e))
            &&& e.pending == old(queue).pending()
            &&& e.queue_size == old(queue).size
            &&& final(queue).next_avail == old(queue).next_avail
            &&& final(queue).used == old(queue).used
        },
        old(queue).pending() <= old(queue).size ==> {
            let batch = inflate_batch(old(queue).waiting(), *mem, 0);
            &&& final(queue).next_avail == old(queue).next_avail + batch.taken
            &&& final(queue).used@ == old(queue).used@ + empty_entries(batch.used)
            &&& batch.malformed ==> r == Err::<bool, _>(BalloonError::MalformedDescriptor)
            &&& !batch.malformed ==> r == Ok::<bool, BalloonError>(batch.used.len() > 0)
            &&& !batch.malformed ==> final(pfns)@ == batch.pfns
        },
{
    let ghost start = *queue;
    let ghost whole = inflate_batch(start.waiting(), *mem, 0);
    let ghost mut done: Seq<u16> = seq![];
    let mut used_any: bool = false;
    proof {
        assert(start.used@ =~= start.used@ + empty_entries(seq![]));
        assert(whole.used =~= seq![] + whole.used);
        assert(whole.pfns =~= pfns@ + whole.pfns);
    }
    loop
        invariant
            queue.wf(),
            mem.wf(),
            start == *old(queue),
            start.wf(),
            queue.size == start.size,
            queue.avail == start.avail,
            queue.staged == start.staged,
            queue.published == start.published,
            queue.notify == start.notify,
            start.next_avail <= queue.next_avail,
            queue.next_avail > start.next_avail ==> start.pending() <= start.size,
            queue.next_avail == start.next_avail ==> queue.used == start.used,
            pfns@.len() <= MAX_PAGE_COMPACT_BUFFER,
            used_any <==> done.len() > 0,
            queue.used@ == start.used@ + empty_entries(done),
            whole == inflate_batch(start.waiting(), *mem, 0),
            ({
                let rest = inflate_batch(queue.waiting(), *mem, pfns@.len() as int);
                &&& whole.taken == queue.next_avail - start.next_avail + rest.taken
                &&& whole.used == done + rest.used
                &&& whole.pfns == pfns@ + rest.pfns
                &&& whole.malformed == rest.malformed
            }),
        decreases queue.avail@.len() - queue.next_avail,
    {
        let ghost current = *queue;
        let ghost held = pfns@;
        let ghost rest = inflate_batch(current.waiting(), *mem, held.len() as int);
        let head = match queue.pop() {
            Err(e) => {
                return Err(BalloonError::InvalidAvailIdx(e));
            },
            Ok(None) => {
                proof {
                    assert(done + Seq::<u16>::empty() =~= done);
                    assert(pfns@ + Seq::<u32>::empty() =~= pfns@);
                }
                return Ok(used_any);
            },
            Ok(Some(head)) => head,
        };
        proof {
            lemma_waiting_step(current);
            assert(queue.waiting() == current.waiting().skip(1));
        }
        let ghost tail = inflate_batch(queue.waiting(), *mem, held.len() as int);
        let len: usize = head.head.len as usize;
        if !head.head.write_only && len % SIZE_OF_U32 == 0 {
            if len > MAX_PAGES_IN_DESC * SIZE_OF_U32 {
                // A buffer that names too many pages is dropped.
                continue ;
            }
            if MAX_PAGE_COMPACT_BUFFER - pfns.len() < len / SIZE_OF_U32 {
                // The buffer waits for the next batch.
                queue.undo_pop();
                proof {
                    assert(done + Seq::<u16>::empty() =~= done);
                    assert(pfns@ + Seq::<u32>::empty() =~= pfns@);
                }
                return Ok(used_any);
            }
            if !read_pfns(mem, head.head.addr, len, pfns) {
                proof {
                    assert(done + Seq::<u16>::empty() =~= done);
                }
                return Err(BalloonError::MalformedDescriptor);
            }
            proof {
                let named = pfns_at(*mem, head.head.addr as int, (len / 4) as int);
                let after = inflate_batch(queue.waiting(), *mem, pfns@.len() as int);
                assert(rest.pfns == named + after.pfns);
                assert(whole.pfns =~= pfns@ + after.pfns);
            }
        }
        // Nothing was written to the buffer.
        let ghost before_used = queue.used@;
        match queue.add_used(head.index, 0) {
            Ok(()) => {},
            Err(e) => {
                return Err(BalloonError::Queue(e));
            },
        }
        proof {
            let after = inflate_batch(queue.waiting(), *mem, pfns@.len() as int);
            assert(rest.used == seq![head.index] + after.used);
            assert(whole.used =~= done.push(head.index) + after.used);
            assert(empty_entries(done.push(head.index)) =~= empty_entries(done).push(
                UsedElement { id: head.index, len: 0 },
            ));
            assert(queue.used@ =~= start.used@ + empty_entries(done.push(head.index)));
            done = done.push(head.index);
        }
        used_any = true;
    }
}

/// Whether the guest pages behind ranges are those named by page frame numbers.
pub open spec fn discards_exactly(discards: Seq<DiscardRange>, pfns: Seq<u32>) -> bool {
    forall|page: int|
        0 <= page ==> (#[trigger] page_discarded(discards, page) <==> among(
            pfns,
            pfns.len() as int,
            page,
        ))
}

// Adds the ranges behind page frame numbers to what is to be given back.
fn push_discards(pfns: &Vec<u32>, discards: &mut Vec<DiscardRange>, Ghost(named): Ghost<Seq<u32>>)
    requires
        pfns@.len() <= MAX_PAGE_COMPACT_BUFFER,
        whole_pages(old(discards)@),
        discards_exactly(old(discards)@, named),
    ensures
        whole_pages(final(discards)@),
        discards_exactly(final(discards)@, named + pfns@),
{
    let ranges = compact_page_frame_numbers(pfns);
    let ghost before = discards@;
    let mut i: usize = 0;
    while i < ranges.len()
        invariant
            i <= ranges@.len(),
            whole_pages(discards@),
            forall|k: int| 0 <= k < ranges@.len() ==> (#[trigger] ranges@[k]).1 > 0,
            forall|page: int|
                0 <= page ==> (#[trigger] page_discarded(discards@, page) <==> page_discarded(
                    before,
                    page,
                ) || covered(ranges@.take(i as int), page)),
        decreases ranges.len() - i,
    {
        let (first, count): (u32, u32) = ranges[i];
        let ghost current = discards@;
        let range = DiscardRange { addr: first as u64 * 4096, len: count as u64 * 4096 };
        assert(ranges@[i as int].1 > 0);
        discards.push(range);
        proof {
            assert(ranges@.take(i + 1) =~= ranges@.take(i as int).push(ranges@[i as int]));
            assert forall|page: int| 0 <= page implies (#[trigger] page_discarded(discards@, page)
                <==> page_discarded(before, page) || covered(ranges@.take(i + 1), page)) by {
                let done = ranges@.take(i as int);
                let longer = ranges@.take(i + 1);
                assert(page_discarded(current, page) <==> page_discarded(before, page) || covered(
                    done,
                    page,
                ));
                if page_discarded(discards@, page) {
                    let k = choose|k: int|
                        0 <= k < discards@.len() && (#[trigger] discards@[k]).addr <= page * 4096
                            && page * 4096 + 4096 <= discards@[k].addr + discards@[k].len;
                    if k < current.len() {
                        assert(current[k] == discards@[k]);
                    } else {
                        assert(longer[i as int] == ranges@[i as int]);
                    }
                }
                if page_discarded(current, page) {
                    let k = choose|k: int|
                        0 <= k < current.len() && (#[trigger] current[k]).addr <= page * 4096 && page
                            * 4096 + 4096 <= current[k].addr + current[k].len;
                    assert(discards@[k] == current[k]);
                }
                if covered(longer, page) {
                    let k = choose|k: int|
                        0 <= k < longer.len()
                            && crate::devices::virtio::balloon::util::in_range(
                            #[trigger] longer[k],
                            page,
                        );
                    if k < i {
                        assert(done[k] == longer[k]);
                    } else {
                        assert(discards@[current.len() as int] == range);
                    }
                }
                if covered(done, page) {
                    let k = choose|k: int|
                        0 <= k < done.len() && crate::devices::virtio::balloon::util::in_range(
                            #[trigger] done[k],
                            page,
                        );
                    assert(longer[k] == done[k]);
                }
            }
        }
        i = i + 1;
    }
    proof {
        assert(ranges@.take(i as int) =~= ranges@);
        assert forall|page: int| 0 <= page implies (#[trigger] page_discarded(discards@, page)
            <==> among(named + pfns@, (named + pfns@).len() as int, page)) by {
            let all = named + pfns@;
            assert(covered(ranges@, page) <==> among(pfns@, pfns@.len() as int, page));
            if among(all, all.len() as int, page) {
                let k = choose|k: int| 0 <= k < all.len() && #[trigger] all[k] == page;
                if k < named.len() {
                    assert(named[k] == page);
                } else {
                    assert(pfns@[k - named.len()] == page);
                }
            }
            if among(named, named.len() as int, page) {
                let k = choose|k: int| 0 <= k < named.len() && #[trigger] named[k] == page;
                assert(all[k] == page);
            }
            if among(pfns@, pfns@.len() as int, page) {
                let k = choose|k: int| 0 <= k < pfns@.len() && #[trigger] pfns@[k] == page;
                assert(all[named.len() + k] == page);
            }
        }
    }
}

/// What work on the inflation queue leads to.
pub open spec fn inflate_done(
    before: Queue,
    after: Queue,
    mem: GuestMemory,
    r: QueueOutcome,
) -> bool {
    &&& after.wf()
    &&& after.size == before.size
    &&& after.avail == before.avail
    &&& after.staged == before.staged
    &&& after.notify == before.notify
    &&& whole_pages(r.discards@)
    &&& before.pending() > before.size ==> {
        &&& r.result matches Err(BalloonError::InvalidAvailIdx(e))
        &&& e.pending == before.pending()
        &&& e.queue_size == before.size
        &&& r.discards@.len() == 0
        &&& !r.interrupt
        &&& after.next_avail == before.next_avail
        &&& after.used == before.used
        &&& after.published == before.published
    }
    &&& before.pending() <= before.size ==> {
        let run = inflate_run(before.waiting(), mem);
        &&& after.next_avail == before.next_avail + run.taken
        &&& after.used@ == before.used@ + empty_entries(run.used)
        &&& discards_exactly(r.discards@, run.pfns)
        &&& run.malformed ==> {
            &&& r.result == Err::<(), _>(BalloonError::MalformedDescriptor)
            &&& !r.interrupt
            &&& after.published == before.published
        }
        &&& !run.malformed ==> {
            &&& r.result is Ok
            &&& r.interrupt == (run.used.len() > 0)
            &&& after.published == after.used@.len()
            &&& after.pending() == 0
        }
    }
}

/// Works on the queue by which the guest hands pages over.
pub fn process_inflate(queue: &mut Queue, mem: &GuestMemory) -> (r: QueueOutcome)
    requires
        old(queue).wf(),
        mem.wf(),
    ensures
        inflate_done(*old(queue), *final(queue), *mem, r),
{
    let ghost start = *queue;
    let ghost whole = inflate_run(start.waiting(), *mem);
    let ghost mut done: Seq<u16> = seq![];
    let ghost mut named: Seq<u32> = seq![];
    let mut discards: Vec<DiscardRange> = Vec::new();
    let mut interrupt: bool = false;
    proof {
        assert(start.used@ =~= start.used@ + empty_entries(seq![]));
        assert(whole.used =~= done + whole.used);
        assert(whole.pfns =~= named + whole.pfns);
    }
    loop
        invariant
            queue.wf(),
            mem.wf(),
            start == *old(queue),
            start.wf(),
            queue.size == start.size,
            queue.avail == start.avail,
            queue.staged == start.staged,
            queue.published == start.published,
            queue.notify == start.notify,
            start.next_avail <= queue.next_avail,
            queue.next_avail > start.next_avail ==> start.pending() <= start.size,
            queue.next_avail == start.next_avail ==> queue.used == start.used && discards@.len()
                == 0 && !interrupt,
            interrupt <==> done.len() > 0,
            queue.used@ == start.used@ + empty_entries(done),
            whole_pages(discards@),
            discards_exactly(discards@, named),
            whole == inflate_run(start.waiting(), *mem),
            ({
                let rest = inflate_run(queue.waiting(), *mem);
                &&& whole.taken == queue.next_avail - start.next_avail + rest.taken
                &&& whole.used == done + rest.used
                &&& whole.pfns == named + rest.pfns
                &&& whole.malformed == rest.malformed
            }),
        decreases queue.avail@.len() - queue.next_avail,
    {
        let ghost current = *queue;
        let ghost batch = inflate_batch(current.waiting(), *mem, 0);
        let ghost rest = inflate_run(current.waiting(), *mem);
        let mut pfns: Vec<u32> = Vec::new();
        proof {
            lemma_batch_bounds(current.waiting(), *mem, 0);
        }
        match process_inflate_batch(queue, mem, &mut pfns) {
            Err(e) => {
                proof {
                    if current.pending() <= current.size {
                        assert(empty_entries(done + batch.used) =~= empty_entries(done)
                            + empty_entries(batch.used));
                        assert(queue.used@ =~= start.used@ + empty_entries(whole.used));
                        assert(named + Seq::<u32>::empty() =~= named);
                    }
                }
                return QueueOutcome { discards, interrupt: false, result: Err(e) };
            },
            Ok(used_any) => {
                if used_any {
                    interrupt = true;
                }
                let ghost former = discards@;
                push_discards(&pfns, &mut discards, Ghost(named));
                proof {
                    lemma_waiting_skip(current, batch.taken as int);
                    assert(queue.waiting() == current.waiting().skip(batch.taken as int));
                    assert(empty_entries(done + batch.used) =~= empty_entries(done) + empty_entries(
                        batch.used,
                    ));
                    assert(queue.used@ =~= start.used@ + empty_entries(done + batch.used));
                    if batch.taken > 0 {
                        let after = inflate_run(queue.waiting(), *mem);
                        assert(rest.used == batch.used + after.used);
                        assert(whole.used =~= (done + batch.used) + after.used);
                        assert(whole.pfns =~= (named + batch.pfns) + after.pfns);
                    } else {
                        assert(current.waiting().len() == 0);
                        assert(batch.used =~= seq![]);
                        assert(batch.pfns =~= seq![]);
                    }
                    done = done + batch.used;
                    named = named + batch.pfns;
                }
                if queue.is_empty() {
                    proof {
                        let after = inflate_run(queue.waiting(), *mem);
                        assert(queue.waiting().len() == 0);
                        assert(done + after.used =~= done);
                        assert(named + after.pfns =~= named);
                    }
                    queue.advance_used_ring_idx();
                    return QueueOutcome { discards, interrupt, result: Ok(()) };
                }
                assert(batch.taken > 0);
            },
        }
    }
}

/// What work on the deflation queue leads to.
pub open spec fn deflate_done(
    before: Queue,
    after: Queue,
    r: QueueOutcome,
) -> bool {
    &&& after.wf()
    &&& after.size == before.size
    &&& after.avail == before.avail
    &&& after.staged == before.staged
    &&& after.notify == before.notify
    &&& r.discards@.len() == 0
    &&& before.pending() > before.size ==> {
        &&& r.result matches Err(BalloonError::InvalidAvailIdx(e))
        &&& e.pending == before.pending()
        &&& e.queue_size == before.size
        &&& !r.interrupt
        &&& after.next_avail == before.next_avail
        &&& after.used == before.used
        &&& after.published == before.published
    }
    &&& before.pending() <= before.size ==> {
        &&& r.result is Ok
        &&& r.interrupt == (before.pending() > 0)
        &&& after.pending() == 0
        &&& after.used@ == before.used@ + empty_entries(
            before.waiting().map_values(|c: ChainView| c.index),
        )
        &&& after.published == after.used@.len()
    }
}

/// Works on the queue by which the guest takes pages back.
pub fn process_deflate_queue(queue: &mut Queue) -> (r: QueueOutcome)
    requires
        old(queue).wf(),
    ensures
        deflate_done(*old(queue), *final(queue), r),
{
    let ghost start = *queue;
    let ghost ids = start.waiting().map_values(|c: ChainView| c.index);
    let mut interrupt: bool = false;
    assert(start.used@ =~= start.used@ + empty_entries(ids.take(0)));
    loop
        invariant
            queue.wf(),
            start == *old(queue),
            start.wf(),
            queue.size == start.size,
            queue.avail == start.avail,
            queue.staged == start.staged,
            queue.published == start.published,
            queue.notify == start.notify,
            start.next_avail <= queue.next_avail,
            queue.next_avail > start.next_avail ==> start.pending() <= start.size,
            queue.next_avail == start.next_avail ==> queue.used == start.used,
            interrupt <==> queue.next_avail > start.next_avail,
            ids == start.waiting().map_values(|c: ChainView| c.index),
            queue.used@ == start.used@ + empty_entries(
                ids.take(queue.next_avail - start.next_avail),
            ),
        decreases queue.avail@.len() - queue.next_avail,
    {
        let ghost current = *queue;
        let ghost n = current.next_avail - start.next_avail;
        match queue.pop() {
            Err(e) => {
                return QueueOutcome {
                    discards: Vec::new(),
                    interrupt: false,
                    result: Err(BalloonError::InvalidAvailIdx(e)),
                };
            },
            Ok(None) => {
                proof {
                    assert(ids.take(n) =~= ids);
                }
                queue.advance_used_ring_idx();
                return QueueOutcome { discards: Vec::new(), interrupt, result: Ok(()) };
            },
            Ok(Some(head)) => {
                match queue.add_used(head.index, 0) {
                    Ok(()) => {},
                    Err(e) => {
                        return QueueOutcome {
                            discards: Vec::new(),
                            interrupt: false,
                            result: Err(BalloonError::Queue(e)),
                        };
                    },
                }
                interrupt = true;
                proof {
                    assert(ids[n] == head.index);
                    assert(ids.take(n + 1) =~= ids.take(n).push(head.index));
                    assert(empty_entries(ids.take(n + 1)) =~= empty_entries(ids.take(n)).push(
                        UsedElement { id: head.index, len: 0 },
                    ));
                    assert(queue.used@ =~= start.used@ + empty_entries(ids.take(n + 1)));
                }
            },
        }
    }
}

/// A statistic that the guest reports.
#[derive(Debug, Clone, Copy, PartialEq, Eq, Structural)]
pub struct BalloonStat {
    /// What is reported.
    pub tag: u16,
    /// The value.
    pub val: u64,
}

/// The statistic at a guest address.
pub open spec fn stat_at(mem: GuestMemory, addr: int) -> BalloonStat {
    let b = mem.bytes(addr, 10);
    BalloonStat { tag: le16(b.subrange(0, 2)), val: le64(b.subrange(2, 10)) }
}

// Reads the statistic at a guest address.
fn read_stat(mem: &GuestMemory, addr: u64) -> (r: Option<BalloonStat>)
    requires
        mem.wf(),
    ensures
        r == (if mem.has_range(addr as int, 10) {
            Some(stat_at(*mem, addr as int))
        } else {
            None
        }),
{
    match mem.read(addr, SIZE_OF_STAT as usize) {
        Some(b) => Some(
            BalloonStat { tag: read_le16(b.as_slice(), 0), val: read_le64(b.as_slice(), 2) },
        ),
        None => None,
    }
}

/// Statistics of a balloon.
#[derive(Debug, Clone, Copy, PartialEq, Eq, Structural)]
pub struct BalloonStats {
    /// Target size, in pages.
    pub target_pages: u32,
    /// Current size, in pages.
    pub actual_pages: u32,
    /// Target size, in MiB.
    pub target_mib: u32,
    /// Current size, in MiB.
    pub actual_mib: u32,
    /// Amount of memory swapped in.
    pub swap_in: Option<u64>,
    /// Amount of memory swapped out.
    pub swap_out: Option<u64>,
    /// Number of major faults.
    pub major_faults: Option<u64>,
    /// Number of minor faults.
    pub minor_faults: Option<u64>,
    /// Amount of memory that is not used.
    pub free_memory: Option<u64>,
    /// Amount of memory in total.
    pub total_memory: Option<u64>,
    /// Estimate of the memory for new applications.
    pub available_memory: Option<u64>,
    /// Amount of memory that can be reclaimed quickly.
    pub disk_caches: Option<u64>,
    /// Number of allocations of huge pages.
    pub hugetlb_allocations: Option<u64>,
    /// Number of failed allocations of huge pages.
    pub hugetlb_failures: Option<u64>,
    /// Number of processes killed for want of memory.
    pub oom_kill: Option<u64>,
    /// Number of stalled allocations.
    pub alloc_stall: Option<u64>,
    /// Amount of memory scanned in the background.
    pub async_scan: Option<u64>,
    /// Amount of memory scanned directly.
    pub direct_scan: Option<u64>,
    /// Amount of memory reclaimed in the background.
    pub async_reclaim: Option<u64>,
    /// Amount of memory reclaimed directly.
    pub direct_reclaim: Option<u64>,
}

/// Statistics after a report. A report with an unknown tag has no effect.
pub open spec fn stats_with(stats: BalloonStats, stat: BalloonStat) -> BalloonStats {
    let val = Some(stat.val);
    if stat.tag == 0 {
        BalloonStats { swap_in: val, ..stats }
    } else if stat.tag == 1 {
        BalloonStats { swap_out: val, ..stats }
    } else if stat.tag == 2 {
        BalloonStats { major_faults: val, ..stats }
    } else if stat.tag == 3 {
        BalloonStats { minor_faults: val, ..stats }
    } else if stat.tag == 4 {
        BalloonStats { free_memory: val, ..stats }
    } else if stat.tag == 5 {
        BalloonStats { total_memory: val, ..stats }
    } else if stat.tag == 6 {
        BalloonStats { available_memory: val, ..stats }
    } else if stat.tag == 7 {
        BalloonStats { disk_caches: val, ..stats }
    } else if stat.tag == 8 {
        BalloonStats { hugetlb_allocations: val, ..stats }
    } else if stat.tag == 9 {
        BalloonStats { hugetlb_failures: val, ..stats }
    } else if stat.tag == 10 {
        BalloonStats { oom_kill: val, ..stats }
    } else if stat.tag == 11 {
        BalloonStats { alloc_stall: val, ..stats }
    } else if stat.tag == 12 {
        BalloonStats { async_scan: val, ..stats }
    } else if stat.tag == 13 {
        BalloonStats { direct_scan: val, ..stats }
    } else if stat.tag == 14 {
        BalloonStats { async_reclaim: val, ..stats }
    } else if stat.tag == 15 {
        BalloonStats { direct_reclaim: val, ..stats }
    } else {
        stats
    }
}

impl BalloonStats {
    /// Statistics without any report.
    pub open spec fn blank() -> BalloonStats {
        BalloonStats {
            target_pages: 0,
            actual_pages: 0,
            target_mib: 0,
            actual_mib: 0,
            swap_in: None,
            swap_out: None,
            major_faults: None,
            minor_faults: None,
            free_memory: None,
            total_memory: None,
            available_memory: None,
            disk_caches: None,
            hugetlb_allocations: None,
            hugetlb_failures: None,
            oom_kill: None,
            alloc_stall: None,
            async_scan: None,
            direct_scan: None,
            async_reclaim: None,
            direct_reclaim: None,
        }
    }

    /// Takes a report over.
    pub fn update_with_stat(&mut self, stat: &BalloonStat)
        ensures
            *final(self) == stats_with(*old(self), *stat),
    {
        let val: Option<u64> = Some(stat.val);
        match stat.tag {
            0 => self.swap_in = val,
            1 => self.swap_out = val,
            2 => self.major_faults = val,
            3 => self.minor_faults = val,
            4 => self.free_memory = val,
            5 => self.total_memory = val,
            6 => self.available_memory = val,
            7 => self.disk_caches = val,
            8 => self.hugetlb_allocations = val,
            9 => self.hugetlb_failures = val,
            10 => self.oom_kill = val,
            11 => self.alloc_stall = val,
            12 => self.async_scan = val,
            13 => self.direct_scan = val,
            14 => self.async_reclaim = val,
            15 => self.direct_reclaim = val,
            _ => {},
        }
    }
}

impl Default for BalloonStats {
    fn default() -> (r: BalloonStats)
        ensures
            r == BalloonStats::blank(),
    {
        BalloonStats {
            target_pages: 0,
            actual_pages: 0,
            target_mib: 0,
            actual_mib: 0,
            swap_in: None,
            swap_out: None,
            major_faults: None,
            minor_faults: None,
            free_memory: None,
            total_memory: None,
            available_memory: None,
            disk_caches: None,
            hugetlb_allocations: None,
            hugetlb_failures: None,
            oom_kill: None,
            alloc_stall: None,
            async_scan: None,
            direct_scan: None,
            async_reclaim: None,
            direct_reclaim: None,
        }
    }
}

/// Statistics after the reports from offset `at` on in a buffer of `len` bytes, and whether all of
/// them could be read.
pub open spec fn reports_read(
    stats: BalloonStats,
    mem: GuestMemory,
    addr: int,
    len: int,
    at: int,
) -> (BalloonStats, bool)
    decreases len + 10 - at,
{
    if at >= len {
        (stats, true)
    } else if !mem.has_range(addr + at, 10) {
        (stats, false)
    } else {
        reports_read(stats_with(stats, stat_at(mem, addr + at)), mem, addr, len, at + 10)
    }
}

// Takes the reports in a buffer over.
fn read_reports(stats: &mut BalloonStats, mem: &GuestMemory, addr: u64, len: u32) -> (r: bool)
    requires
        mem.wf(),
        len <= MAX_STATS_DESC_LEN,
    ensures
        (*final(stats), r) == reports_read(*old(stats), *mem, addr as int, len as int, 0),
{
    let ghost start = *stats;
    let mut index: u32 = 0;
    while index < len
        invariant
            mem.wf(),
            len <= MAX_STATS_DESC_LEN,
            index <= len + 10,
            start == *old(stats),
            reports_read(start, *mem, addr as int, len as int, 0) == reports_read(
                *stats,
                *mem,
                addr as int,
                len as int,
                index as int,
            ),
        decreases len + 10 - index,
    {
        if index as u64 > u64::MAX - addr {
            proof {
                mem.lemma_in_address_space(addr + index);
                assert(!mem.has(addr + index));
            }
            return false;
        }
        match read_stat(mem, addr + index as u64) {
            Some(stat) => {
                stats.update_with_stat(&stat);
            },
            None => {
                return false;
            },
        }
        index = index + SIZE_OF_STAT;
    }
    true
}

/// What work on the queue of statistics leads to.
pub struct StatsRun {
    /// Chains that are taken.
    pub taken: nat,
    /// Heads of the chains that are given back.
    pub used: Seq<u16>,
    /// The statistics.
    pub stats: BalloonStats,
    /// Head of the chain that is kept for the next request.
    pub kept: Option<u16>,
    /// Whether a buffer cannot be read.
    pub malformed: bool,
}

/// Work on the queue of statistics: a chain is kept until the next request for statistics, and a
/// chain that is still kept is given back when another one comes. A buffer that is too long is
/// kept but not read.
pub open spec fn stats_run(
    chains: Seq<ChainView>,
    mem: GuestMemory,
    stats: BalloonStats,
    kept: Option<u16>,
) -> StatsRun
    decreases chains.len(),
{
    if chains.len() == 0 {
        StatsRun { taken: 0, used: seq![], stats, kept, malformed: false }
    } else {
        let d = chains[0].descs[0];
        let back = match kept {
            Some(index) => seq![index],
            None => seq![],
        };
        let (read, complete) = if d.len > MAX_STATS_DESC_LEN {
            (stats, true)
        } else {
            reports_read(stats, mem, d.addr as int, d.len as int, 0)
        };
        if complete {
            let rest = stats_run(chains.skip(1), mem, read, Some(chains[0].index));
            StatsRun { taken: rest.taken + 1, used: back + rest.used, ..rest }
        } else {
            StatsRun { taken: 1, used: back, stats: read, kept, malformed: true }
        }
    }
}

/// What work on the queue of statistics leads to, the statistics and the kept chain each before and
/// after.
pub open spec fn stats_done(
    before: Queue,
    after: Queue,
    mem: GuestMemory,
    stats: (BalloonStats, BalloonStats),
    kept: (Option<u16>, Option<u16>),
    r: QueueOutcome,
) -> bool {
    &&& after.wf()
    &&& after.size == before.size
    &&& after.avail == before.avail
    &&& after.staged == before.staged
    &&& after.notify == before.notify
    &&& r.discards@.len() == 0
    &&& kept.1 matches Some(index) ==> index < after.size
    &&& before.pending() > before.size ==> {
        &&& r.result matches Err(BalloonError::InvalidAvailIdx(e))
        &&& e.pending == before.pending()
        &&& e.queue_size == before.size
        &&& !r.interrupt
        &&& after.next_avail == before.next_avail
        &&& after.used == before.used
        &&& after.published == before.published
        &&& stats.1 == stats.0
        &&& kept.1 == kept.0
    }
    &&& before.pending() <= before.size ==> {
        let run = stats_run(
            before.waiting(),
            mem,
            stats.0,
            kept.0,
        );
        &&& after.next_avail == before.next_avail + run.taken
        &&& after.used@ == before.used@ + empty_entries(run.used)
        &&& after.published == (if run.used.len() > 0 {
            after.used@.len()
        } else {
            before.published as nat
        })
        &&& stats.1 == run.stats
        &&& kept.1 == run.kept
        &&& r.interrupt == (run.used.len() > 0)
        &&& r.result == (if run.malformed {
            Err::<(), BalloonError>(BalloonError::MalformedDescriptor)
        } else {
            Ok(())
        })
    }
}

/// Works on the queue by which the guest reports statistics.
pub fn process_stats_queue(
    queue: &mut Queue,
    mem: &GuestMemory,
    stats: &mut BalloonStats,
    stats_desc_index: &mut Option<u16>,
) -> (r: QueueOutcome)
    requires
        old(queue).wf(),
        mem.wf(),
        *old(stats_desc_index) matches Some(index) ==> index < old(queue).size,
    ensures
        stats_done(
            *old(queue),
            *final(queue),
            *mem,
            (*old(stats), *final(stats)),
            (*old(stats_desc_index), *final(stats_desc_index)),
            r,
        ),
{
    let ghost start = *queue;
    let ghost whole = stats_run(start.waiting(), *mem, *stats, *stats_desc_index);
    let ghost mut done: Seq<u16> = seq![];
    let mut interrupt: bool = false;
    proof {
        assert(start.used@ =~= start.used@ + empty_entries(seq![]));
        assert(whole.used =~= done + whole.used);
    }
    loop
        invariant
            queue.wf(),
            mem.wf(),
            start == *old(queue),
            start.wf(),
            queue.size == start.size,
            queue.avail == start.avail,
            queue.staged == start.staged,
            queue.notify == start.notify,
            start.next_avail <= queue.next_avail,
            *stats_desc_index matches Some(index) ==> index < queue.size,
            queue.next_avail > start.next_avail ==> start.pending() <= start.size,
            queue.next_avail == start.next_avail ==> queue.used == start.used && queue.published
                == start.published && !interrupt && *stats == *old(stats) && *stats_desc_index
                == *old(stats_desc_index),
            interrupt <==> done.len() > 0,
            queue.used@ == start.used@ + empty_entries(done),
            queue.published == (if done.len() > 0 {
                queue.used@.len()
            } else {
                start.published as nat
            }),
            whole == stats_run(
                start.waiting(),
                *mem,
                *old(stats),
                *old(stats_desc_index),
            ),
            ({
                let rest = stats_run(queue.waiting(), *mem, *stats, *stats_desc_index);
                &&& whole.taken == queue.next_avail - start.next_avail + rest.taken
                &&& whole.used == done + rest.used
                &&& whole.stats == rest.stats
                &&& whole.kept == rest.kept
                &&& whole.malformed == rest.malformed
            }),
        decreases queue.avail@.len() - queue.next_avail,
    {
        let ghost current = *queue;
        let ghost rest = stats_run(current.waiting(), *mem, *stats, *stats_desc_index);
        let head = match queue.pop() {
            Err(e) => {
                return QueueOutcome {
                    discards: Vec::new(),
                    interrupt: false,
                    result: Err(BalloonError::InvalidAvailIdx(e)),
                };
            },
            Ok(None) => {
                assert(done + Seq::<u16>::empty() =~= done);
                return QueueOutcome { discards: Vec::new(), interrupt, result: Ok(()) };
            },
            Ok(Some(head)) => head,
        };
        proof {
            lemma_waiting_step(current);
            assert(queue.waiting() == current.waiting().skip(1));
        }
        let ghost back: Seq<u16> = match *stats_desc_index {
            Some(index) => seq![index],
            None => seq![],
        };
        if let Some(prev_stats_desc) = *stats_desc_index {
            // A driver that follows the protocol has no second buffer, but where there is one
            // the first is given back.
            match queue.add_used(prev_stats_desc, 0) {
                Ok(()) => {},
                Err(e) => {
                    return QueueOutcome {
                        discards: Vec::new(),
                        interrupt,
                        result: Err(BalloonError::Queue(e)),
                    };
                },
            }
            queue.advance_used_ring_idx();
            interrupt = true;
        }
        proof {
            assert(empty_entries(done + back) =~= empty_entries(done) + empty_entries(back));
            assert(queue.used@ =~= start.used@ + empty_entries(done + back));
        }
        if head.head.len <= MAX_STATS_DESC_LEN {
            if !read_reports(stats, mem, head.head.addr, head.head.len) {
                return QueueOutcome {
                    discards: Vec::new(),
                    interrupt,
                    result: Err(BalloonError::MalformedDescriptor),
                };
            }
        }
        *stats_desc_index = Some(head.index);
        proof {
            let after = stats_run(queue.waiting(), *mem, *stats, *stats_desc_index);
            assert(rest.used == back + after.used);
            assert(whole.used =~= (done + back) + after.used);
            done = done + back;
        }
    }
}

/// What is known of a hinting run while its queue is worked on.
#[derive(Clone, Copy, PartialEq, Eq, Structural)]
pub struct HintProgress {
    /// The last command of the guest.
    pub guest_cmd: Option<u32>,
    /// Whether the guest ended the run.
    pub complete: bool,
}

/// What buffers of a hinting run lead to: the progress, the memory that is given back, and
/// whether a command cannot be read.
pub struct HintRun {
    /// Progress of the run.
    pub progress: HintProgress,
    /// Memory that is given back.
    pub discards: Seq<DiscardRange>,
    /// Whether a command cannot be read.
    pub malformed: bool,
}

/// The buffers of one chain of a hinting run. A buffer of four bytes is a command of the guest;
/// any other is memory that is free, which counts only for the command that the host asked for.
pub open spec fn hint_chain(
    descs: Seq<Descriptor>,
    mem: GuestMemory,
    host_cmd: u32,
    progress: HintProgress,
) -> HintRun
    decreases descs.len(),
{
    if descs.len() == 0 {
        HintRun { progress, discards: seq![], malformed: false }
    } else if descs[0].len == 4 {
        if !mem.has_range(descs[0].addr as int, 4) {
            HintRun {
                progress: HintProgress { complete: false, ..progress },
                discards: seq![],
                malformed: true,
            }
        } else {
            let cmd = le32(mem.bytes(descs[0].addr as int, 4));
            hint_chain(
                descs.skip(1),
                mem,
                host_cmd,
                HintProgress {
                    guest_cmd: Some(cmd),
                    complete: cmd == FREE_PAGE_HINT_STOP || cmd == FREE_PAGE_HINT_DONE,
                },
            )
        }
    } else {
        let rest = hint_chain(descs.skip(1), mem, host_cmd, progress);
        if host_cmd != FREE_PAGE_HINT_DONE && host_cmd != FREE_PAGE_HINT_STOP && progress.guest_cmd
            == Some(host_cmd) {
            HintRun {
                discards: seq![DiscardRange { addr: descs[0].addr, len: descs[0].len as u64 }]
                    + rest.discards,
                ..rest
            }
        } else {
            rest
        }
    }
}

// Works on the buffers of one chain of a hinting run.
fn process_hint_chain(
    head: &DescriptorChain,
    mem: &GuestMemory,
    host_cmd: u32,
    progress: &mut HintProgress,
    discards: &mut Vec<DiscardRange>,
) -> (r: bool)
    requires
        mem.wf(),
        head.rest@.len() < usize::MAX,
    ensures
        ({
            let run = hint_chain(head@.descs, *mem, host_cmd, *old(progress));
            &&& r == !run.malformed
            &&& *final(progress) == run.progress
            &&& final(discards)@ == old(discards)@ + run.discards
        }),
{
    let ghost descs = head@.descs;
    let ghost whole = hint_chain(descs, *mem, host_cmd, *progress);
    let ghost before = discards@;
    let ghost mut done: Seq<DiscardRange> = seq![];
    let count: usize = head.count();
    let mut i: usize = 0;
    proof {
        assert(descs.skip(0) =~= descs);
        assert(before + done =~= before);
        assert(done + whole.discards =~= whole.discards);
    }
    while i < count
        invariant
            mem.wf(),
            i <= count,
            count == descs.len(),
            descs == head@.descs,
            before == old(discards)@,
            whole == hint_chain(descs, *mem, host_cmd, *old(progress)),
            discards@ == before + done,
            ({
                let rest = hint_chain(descs.skip(i as int), *mem, host_cmd, *progress);
                &&& whole.progress == rest.progress
                &&& whole.malformed == rest.malformed
                &&& whole.discards == done + rest.discards
            }),
        decreases count - i,
    {
        let desc = match head.get(i) {
            Some(desc) => desc,
            None => {
                return true;
            },
        };
        let ghost rest = hint_chain(descs.skip(i as int), *mem, host_cmd, *progress);
        proof {
            assert(descs.skip(i as int)[0] == desc);
            assert(descs.skip(i as int).skip(1) =~= descs.skip(i + 1));
        }
        i = i + 1;
        // A command is always of length four.
        if desc.len == 4 {
            progress.complete = false;
            let cmd: u32 = match mem.read_u32(desc.addr) {
                Some(cmd) => cmd,
                None => {
                    assert(done + Seq::<DiscardRange>::empty() =~= done);
                    return false;
                },
            };
            progress.guest_cmd = Some(cmd);
            if cmd == FREE_PAGE_HINT_STOP {
                progress.complete = true;
            }
            // Not expected from the driver, but treated as a stop.
            if cmd == FREE_PAGE_HINT_DONE {
                progress.complete = true;
            }
            continue ;
        }
        // Once the run was stopped, hints that are still under way do not count.
        if host_cmd == FREE_PAGE_HINT_DONE || host_cmd == FREE_PAGE_HINT_STOP {
            continue ;
        }
        let chain_cmd: u32 = match progress.guest_cmd {
            Some(cmd) => cmd,
            None => {
                continue ;
            },
        };
        if chain_cmd != host_cmd {
            continue ;
        }
        let range = DiscardRange { addr: desc.addr, len: desc.len as u64 };
        discards.push(range);
        proof {
            let after = hint_chain(descs.skip(i as int), *mem, host_cmd, *progress);
            assert(rest.discards == seq![range] + after.discards);
            assert(done.push(range) + after.discards =~= done + rest.discards);
            assert(discards@ =~= before + done.push(range));
            done = done.push(range);
        }
    }
    assert(descs.skip(i as int).len() == 0);
    assert(done + Seq::<DiscardRange>::empty() =~= done);
    true
}

/// All chains of a hinting run: how many are taken, and what they lead to. A chain with a command
/// that cannot be read is taken and not used.
pub open spec fn hint_run(
    chains: Seq<ChainView>,
    mem: GuestMemory,
    host_cmd: u32,
    progress: HintProgress,
) -> (nat, HintRun)
    decreases chains.len(),
{
    if chains.len() == 0 {
        (0, HintRun { progress, discards: seq![], malformed: false })
    } else {
        let one = hint_chain(chains[0].descs, mem, host_cmd, progress);
        if one.malformed {
            (1, one)
        } else {
            let (taken, rest) = hint_run(chains.skip(1), mem, host_cmd, one.progress);
            (taken + 1, HintRun { discards: one.discards + rest.discards, ..rest })
        }
    }
}

/// The heads of the first chains.
pub open spec fn heads(chains: Seq<ChainView>, n: int) -> Seq<u16> {
    chains.take(n).map_values(|c: ChainView| c.index)
}

proof fn lemma_heads_step(chains: Seq<ChainView>, n: int)
    requires
        0 <= n < chains.len(),
    ensures
        empty_entries(heads(chains, n + 1)) == empty_entries(heads(chains, n)).push(
            UsedElement { id: chains[n].index, len: 0 },
        ),
{
    assert(empty_entries(heads(chains, n + 1)) =~= empty_entries(heads(chains, n)).push(
        UsedElement { id: chains[n].index, len: 0 },
    ));
}

/// What work on the hinting queue leads to, the guest's command before and after.
pub open spec fn hinting_done(
    before: Queue,
    after: Queue,
    mem: GuestMemory,
    host_cmd: u32,
    guest_cmd: (Option<u32>, Option<u32>),
    r: (QueueOutcome, bool),
) -> bool {
    &&& after.wf()
    &&& after.size == before.size
    &&& after.avail == before.avail
    &&& after.staged == before.staged
    &&& after.notify == before.notify
    &&& before.pending() > before.size ==> {
        &&& r.0.result matches Err(BalloonError::InvalidAvailIdx(e))
        &&& e.pending == before.pending()
        &&& e.queue_size == before.size
        &&& !r.0.interrupt
        &&& !r.1
        &&& r.0.discards@.len() == 0
        &&& after.next_avail == before.next_avail
        &&& after.used == before.used
        &&& after.published == before.published
        &&& guest_cmd.1 == guest_cmd.0
    }
    &&& before.pending() <= before.size ==> {
        let (taken, run) = hint_run(
            before.waiting(),
            mem,
            host_cmd,
            HintProgress { guest_cmd: guest_cmd.0, complete: false },
        );
        let used = if run.malformed {
            taken - 1
        } else {
            taken as int
        };
        &&& after.next_avail == before.next_avail + taken
        &&& after.used@ == before.used@ + empty_entries(
            heads(before.waiting(), used),
        )
        &&& r.0.discards@ == run.discards
        &&& guest_cmd.1 == run.progress.guest_cmd
        &&& run.malformed ==> {
            &&& r.0.result == Err::<(), _>(BalloonError::MalformedDescriptor)
            &&& !r.0.interrupt
            &&& !r.1
            &&& after.published == before.published
        }
        &&& !run.malformed ==> {
            &&& r.0.result is Ok
            &&& r.0.interrupt == (taken > 0)
            &&& r.1 == run.progress.complete
            &&& after.published == after.used@.len()
        }
    }
}

/// Works on the queue by which the guest hints at free memory.
pub fn process_free_page_hinting_queue(
    queue: &mut Queue,
    mem: &GuestMemory,
    host_cmd: u32,
    guest_cmd: &mut Option<u32>,
) -> (r: (QueueOutcome, bool))
    requires
        old(queue).wf(),
        mem.wf(),
    ensures
        hinting_done(
            *old(queue),
            *final(queue),
            *mem,
            host_cmd,
            (*old(guest_cmd), *final(guest_cmd)),
            r,
        ),
{
    let ghost start = *queue;
    let ghost begin = HintProgress { guest_cmd: *guest_cmd, complete: false };
    let ghost whole = hint_run(start.waiting(), *mem, host_cmd, begin);
    let mut progress = HintProgress { guest_cmd: *guest_cmd, complete: false };
    let mut discards: Vec<DiscardRange> = Vec::new();
    let mut interrupt: bool = false;
    proof {
        assert(start.used@ =~= start.used@ + empty_entries(heads(start.waiting(), 0)));
        assert(discards@ + whole.1.discards =~= whole.1.discards);
        assert(start.waiting().skip(0) =~= start.waiting());
    }
    loop
        invariant
            queue.wf(),
            mem.wf(),
            start == *old(queue),
            start.wf(),
            begin == (HintProgress { guest_cmd: *old(guest_cmd), complete: false }),
            queue.size == start.size,
            queue.avail == start.avail,
            queue.staged == start.staged,
            queue.notify == start.notify,
            queue.published == start.published,
            start.next_avail <= queue.next_avail,
            queue.next_avail > start.next_avail ==> start.pending() <= start.size,
            queue.next_avail == start.next_avail ==> queue.used == start.used && discards@.len()
                == 0 && progress == begin,
            interrupt <==> queue.next_avail > start.next_avail,
            *guest_cmd == *old(guest_cmd),
            queue.used@ == start.used@ + empty_entries(
                heads(start.waiting(), queue.next_avail - start.next_avail),
            ),
            queue.waiting() == start.waiting().skip(queue.next_avail - start.next_avail),
            whole == hint_run(start.waiting(), *mem, host_cmd, begin),
            ({
                let (taken, rest) = hint_run(queue.waiting(), *mem, host_cmd, progress);
                &&& whole.0 == queue.next_avail - start.next_avail + taken
                &&& whole.1.discards == discards@ + rest.discards
                &&& whole.1.progress == rest.progress
                &&& whole.1.malformed == rest.malformed
            }),
        decreases queue.avail@.len() - queue.next_avail,
    {
        let ghost current = *queue;
        let ghost n = current.next_avail - start.next_avail;
        let ghost rest = hint_run(current.waiting(), *mem, host_cmd, progress).1;
        let head = match queue.pop() {
            Err(e) => {
                return (
                    QueueOutcome {
                        discards,
                        interrupt: false,
                        result: Err(BalloonError::InvalidAvailIdx(e)),
                    },
                    false,
                );
            },
            Ok(None) => {
                assert(discards@ + Seq::<DiscardRange>::empty() =~= discards@);
                queue.advance_used_ring_idx();
                *guest_cmd = progress.guest_cmd;
                return (QueueOutcome { discards, interrupt, result: Ok(()) }, progress.complete);
            },
            Ok(Some(head)) => head,
        };
        proof {
            lemma_waiting_step(current);
            assert(queue.waiting() == current.waiting().skip(1));
            assert(start.waiting().skip(n).skip(1) =~= start.waiting().skip(n + 1));
            assert(current.waiting()[0] == head@);
            assert(start.waiting()[n] == head@);
            assert(head@.descs.len() == start.avail@[current.next_avail as int]@.descs.len());
        }
        let ghost former = discards@;
        let ghost one = hint_chain(head@.descs, *mem, host_cmd, progress);
        if !process_hint_chain(&head, mem, host_cmd, &mut progress, &mut discards) {
            *guest_cmd = progress.guest_cmd;
            return (
                QueueOutcome {
                    discards,
                    interrupt: false,
                    result: Err(BalloonError::MalformedDescriptor),
                },
                false,
            );
        }
        match queue.add_used(head.index, 0) {
            Ok(()) => {},
            Err(e) => {
                return (
                    QueueOutcome { discards, interrupt: false, result: Err(BalloonError::Queue(e)) },
                    false,
                );
            },
        }
        interrupt = true;
        proof {
            lemma_heads_step(start.waiting(), n);
            assert(queue.used@ =~= start.used@ + empty_entries(heads(start.waiting(), n + 1)));
            let after = hint_run(queue.waiting(), *mem, host_cmd, progress).1;
            assert(rest.discards == one.discards + after.discards);
            assert(discards@ + after.discards =~= former + rest.discards);
        }
    }
}

/// The memory that the buffers of a chain describe.
pub open spec fn ranges_of(descs: Seq<Descriptor>) -> Seq<DiscardRange> {
    descs.map_values(|d: Descriptor| DiscardRange { addr: d.addr, len: d.len as u64 })
}

/// The memory that the buffers of all chains describe.
pub open spec fn reported(chains: Seq<ChainView>) -> Seq<DiscardRange>
    decreases chains.len(),
{
    if chains.len() == 0 {
        seq![]
    } else {
        reported(chains.drop_last()) + ranges_of(chains.last().descs)
    }
}

/// What work on the reporting queue leads to.
pub open spec fn reporting_done(
    before: Queue,
    after: Queue,
    r: QueueOutcome,
) -> bool {
    &&& after.wf()
    &&& after.size == before.size
    &&& after.avail == before.avail
    &&& after.staged == before.staged
    &&& after.notify == before.notify
    &&& before.pending() > before.size ==> {
        &&& r.result matches Err(BalloonError::InvalidAvailIdx(e))
        &&& e.pending == before.pending()
        &&& e.queue_size == before.size
        &&& !r.interrupt
        &&& r.discards@.len() == 0
        &&& after.next_avail == before.next_avail
        &&& after.used == before.used
        &&& after.published == before.published
    }
    &&& before.pending() <= before.size ==> {
        &&& r.result is Ok
        &&& r.interrupt == (before.pending() > 0)
        &&& r.discards@ == reported(before.waiting())
        &&& after.pending() == 0
        &&& after.used@ == before.used@ + empty_entries(
            heads(before.waiting(), before.pending()),
        )
        &&& after.published == after.used@.len()
    }
}

/// Works on the queue by which the guest reports free memory.
pub fn process_free_page_reporting_queue(queue: &mut Queue) -> (r: QueueOutcome)
    requires
        old(queue).wf(),
    ensures
        reporting_done(*old(queue), *final(queue), r),
{
    let ghost start = *queue;
    let ghost chains = start.waiting();
    let mut discards: Vec<DiscardRange> = Vec::new();
    let mut interrupt: bool = false;
    proof {
        assert(start.used@ =~= start.used@ + empty_entries(heads(chains, 0)));
        assert(discards@ =~= reported(chains.take(0)));
    }
    loop
        invariant
            queue.wf(),
            start == *old(queue),
            start.wf(),
            chains == start.waiting(),
            queue.size == start.size,
            queue.avail == start.avail,
            queue.staged == start.staged,
            queue.notify == start.notify,
            queue.published == start.published,
            start.next_avail <= queue.next_avail,
            queue.next_avail > start.next_avail ==> start.pending() <= start.size,
            queue.next_avail == start.next_avail ==> queue.used == start.used && discards@.len()
                == 0,
            interrupt <==> queue.next_avail > start.next_avail,
            queue.used@ == start.used@ + empty_entries(
                heads(chains, queue.next_avail - start.next_avail),
            ),
            discards@ == reported(chains.take(queue.next_avail - start.next_avail)),
        decreases queue.avail@.len() - queue.next_avail,
    {
        let ghost current = *queue;
        let ghost n = current.next_avail - start.next_avail;
        let head = match queue.pop() {
            Err(e) => {
                return QueueOutcome {
                    discards,
                    interrupt: false,
                    result: Err(BalloonError::InvalidAvailIdx(e)),
                };
            },
            Ok(None) => {
                assert(chains.take(n) =~= chains);
                queue.advance_used_ring_idx();
                return QueueOutcome { discards, interrupt, result: Ok(()) };
            },
            Ok(Some(head)) => head,
        };
        assert(chains[n] == head@);
        assert(head@.descs.len() == start.avail@[current.next_avail as int]@.descs.len());
        let ghost former = discards@;
        let ghost ranges = ranges_of(head@.descs);
        let count: usize = head.count();
        let mut i: usize = 0;
        assert(discards@ =~= former + ranges.take(0));
        while i < count
            invariant
                i <= count,
                count == head@.descs.len(),
                ranges == ranges_of(head@.descs),
                discards@ == former + ranges.take(i as int),
            decreases count - i,
        {
            if let Some(desc) = head.get(i) {
                discards.push(DiscardRange { addr: desc.addr, len: desc.len as u64 });
                assert(discards@ =~= former + ranges.take(i + 1));
            }
            i = i + 1;
        }
        match queue.add_used(head.index, 0) {
            Ok(()) => {},
            Err(e) => {
                return QueueOutcome {
                    discards,
                    interrupt: false,
                    result: Err(BalloonError::Queue(e)),
                };
            },
        }
        interrupt = true;
        proof {
            assert(ranges.take(i as int) =~= ranges);
            assert(chains.take(n + 1).drop_last() =~= chains.take(n));
            lemma_heads_step(chains, n);
            assert(queue.used@ =~= start.used@ + empty_entries(heads(chains, n + 1)));
        }
    }
}

} // verus!
