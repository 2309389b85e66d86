//! What the messages of a guest to its balloon lead to.

use vstd::prelude::*;

use crate::devices::virtio::balloon::queues::{
    deflate_done, hint_chain, hint_run, hinting_done, inflate_batch, inflate_done, inflate_run,
    pfns_at, ranges_of, reported, reporting_done, reports_read, stat_at, stats_done, stats_run,
    stats_with, BalloonStat, BalloonStats, DiscardRange, HintProgress, QueueOutcome,
};
use crate::devices::virtio::queue::{empty_entries, ChainView, Descriptor, Queue, UsedElement};
use crate::vstate::guest_memory::{le16, le32, le64, GuestMemory};

verus! {

/// Whether a chain is a list of at most 256 page frame numbers of four bytes each.
pub open spec fn lists_pages(chain: ChainView) -> bool {
    !chain.descs[0].write_only && chain.descs[0].len as int % 4 == 0 && chain.descs[0].len <= 1024
}

/// Whether the guest gets a chain back: not where it lists more than 256 pages.
pub open spec fn comes_back(chain: ChainView) -> bool {
    lists_pages(chain) || chain.descs[0].write_only || chain.descs[0].len as int % 4 != 0
}

/// Whether every list of pages is backed by memory.
pub open spec fn lists_are_backed(chains: Seq<ChainView>, mem: GuestMemory) -> bool {
    forall|c: int|
        0 <= c < chains.len() && lists_pages(#[trigger] chains[c]) ==> mem.has_range(
            chains[c].descs[0].addr as int,
            chains[c].descs[0].len as int,
        )
}

/// The page frame number at a place of a list.
pub open spec fn listed(chain: ChainView, mem: GuestMemory, k: int) -> u32 {
    le32(mem.bytes(chain.descs[0].addr + 4 * k, 4))
}

/// Whether a chain that comes back has a given head.
pub open spec fn some_comes_back(chains: Seq<ChainView>, index: u16) -> bool {
    exists|c: int|
        0 <= c < chains.len() && comes_back(#[trigger] chains[c]) && chains[c].index == index
}

/// Whether a list names a page.
pub open spec fn lists_page(chain: ChainView, mem: GuestMemory, page: u32) -> bool {
    exists|k: int| 0 <= k < chain.descs[0].len as int / 4 && #[trigger] listed(chain, mem, k) == page
}

/// Whether some list names a page.
pub open spec fn some_lists(chains: Seq<ChainView>, mem: GuestMemory, page: u32) -> bool {
    exists|c: int|
        0 <= c < chains.len() && lists_pages(#[trigger] chains[c]) && lists_page(
            chains[c],
            mem,
            page,
        )
}

proof fn lemma_some_split(chains: Seq<ChainView>, n: int, mem: GuestMemory, index: u16, page: u32)
    requires
        0 <= n <= chains.len(),
    ensures
        some_comes_back(chains, index) <==> some_comes_back(chains.take(n), index)
            || some_comes_back(chains.skip(n), index),
        some_lists(chains, mem, page) <==> some_lists(chains.take(n), mem, page) || some_lists(
            chains.skip(n),
            mem,
            page,
        ),
{
    let (a, b) = (chains.take(n), chains.skip(n));
    if some_comes_back(chains, index) {
        let c = choose|c: int|
            0 <= c < chains.len() && comes_back(#[trigger] chains[c]) && chains[c].index == index;
        if c < n {
            assert(a[c] == chains[c]);
        } else {
            assert(b[c - n] == chains[c]);
        }
    }
    if some_comes_back(a, index) {
        let c = choose|c: int|
            0 <= c < a.len() && comes_back(#[trigger] a[c]) && a[c].index == index;
        assert(a[c] == chains[c]);
    }
    if some_comes_back(b, index) {
        let c = choose|c: int|
            0 <= c < b.len() && comes_back(#[trigger] b[c]) && b[c].index == index;
        assert(b[c] == chains[c + n]);
    }
    if some_lists(chains, mem, page) {
        let c = choose|c: int|
            0 <= c < chains.len() && lists_pages(#[trigger] chains[c]) && lists_page(
                chains[c],
                mem,
                page,
            );
        if c < n {
            assert(a[c] == chains[c]);
        } else {
            assert(b[c - n] == chains[c]);
        }
    }
    if some_lists(a, mem, page) {
        let c = choose|c: int|
            0 <= c < a.len() && lists_pages(#[trigger] a[c]) && lists_page(a[c], mem, page);
        assert(a[c] == chains[c]);
    }
    if some_lists(b, mem, page) {
        let c = choose|c: int|
            0 <= c < b.len() && lists_pages(#[trigger] b[c]) && lists_page(b[c], mem, page);
        assert(b[c] == chains[c + n]);
    }
}

proof fn lemma_in_either<T>(a: Seq<T>, b: Seq<T>, x: T)
    ensures
        (a + b).contains(x) <==> a.contains(x) || b.contains(x),
{
    let s = a + b;
    if s.contains(x) {
        let k = choose|k: int| 0 <= k < s.len() && s[k] == x;
        if k < a.len() {
            assert(a[k] == x);
        } else {
            assert(b[k - a.len()] == x);
        }
    }
    if a.contains(x) {
        let k = choose|k: int| 0 <= k < a.len() && a[k] == x;
        assert(s[k] == x);
    }
    if b.contains(x) {
        let k = choose|k: int| 0 <= k < b.len() && b[k] == x;
        assert(s[k + a.len()] == x);
    }
}

/// What the first chain alone leads to.
proof fn lemma_first(chains: Seq<ChainView>, mem: GuestMemory, index: u16, page: u32)
    requires
        chains.len() > 0,
    ensures
        some_comes_back(chains.take(1), index) <==> comes_back(chains[0]) && chains[0].index
            == index,
        some_lists(chains.take(1), mem, page) <==> lists_pages(chains[0]) && pfns_at(
            mem,
            chains[0].descs[0].addr as int,
            chains[0].descs[0].len as int / 4,
        ).contains(page),
{
    let first = chains.take(1);
    assert(first[0] == chains[0]);
    let d = chains[0].descs[0];
    let pages = pfns_at(mem, d.addr as int, d.len as int / 4);
    if pages.contains(page) {
        let k = choose|k: int| 0 <= k < pages.len() && pages[k] == page;
        assert(listed(chains[0], mem, k) == page);
    }
    if lists_page(chains[0], mem, page) {
        let k = choose|k: int|
            0 <= k < d.len as int / 4 && #[trigger] listed(chains[0], mem, k) == page;
        assert(pages[k] == page);
    }
}

/// What a batch leads to.
proof fn lemma_batch(chains: Seq<ChainView>, mem: GuestMemory, held: int, index: u16, page: u32)
    requires
        lists_are_backed(chains, mem),
        0 <= held <= 2048,
    ensures
        ({
            let batch = inflate_batch(chains, mem, held);
            let taken = chains.take(batch.taken as int);
            &&& !batch.malformed
            &&& batch.taken <= chains.len()
            &&& held == 0 && chains.len() > 0 ==> batch.taken > 0
            &&& batch.used.contains(index) <==> some_comes_back(taken, index)
            &&& batch.pfns.contains(page) <==> some_lists(taken, mem, page)
        }),
    decreases chains.len(),
{
    let batch = inflate_batch(chains, mem, held);
    let taken = chains.take(batch.taken as int);
    if chains.len() > 0 {
        let d = chains[0].descs[0];
        let tail = chains.skip(1);
        assert forall|c: int| 0 <= c < tail.len() && lists_pages(#[trigger] tail[c]) implies mem.has_range(
            tail[c].descs[0].addr as int,
            tail[c].descs[0].len as int,
        ) by {
            assert(tail[c] == chains[c + 1]);
        }
        let more = if lists_pages(chains[0]) {
            d.len as int / 4
        } else {
            0
        };
        if held + more <= 2048 {
            lemma_batch(tail, mem, held + more, index, page);
            let rest = inflate_batch(tail, mem, held + more);
            assert(batch.taken == rest.taken + 1);
            assert(taken.skip(1) =~= tail.take(rest.taken as int));
            assert(taken.take(1) =~= chains.take(1));
            lemma_some_split(taken, 1, mem, index, page);
            lemma_first(taken, mem, index, page);
            if comes_back(chains[0]) {
                lemma_in_either(seq![chains[0].index], rest.used, index);
                assert(seq![chains[0].index].contains(index) <==> chains[0].index == index) by {
                    if chains[0].index == index {
                        assert(seq![chains[0].index][0] == index);
                    }
                }
            }
            if lists_pages(chains[0]) {
                lemma_in_either(pfns_at(mem, d.addr as int, more), rest.pfns, page);
            }
        }
    }
}

/// What all batches lead to.
proof fn lemma_run(chains: Seq<ChainView>, mem: GuestMemory, index: u16, page: u32)
    requires
        lists_are_backed(chains, mem),
    ensures
        ({
            let run = inflate_run(chains, mem);
            &&& !run.malformed
            &&& run.used.contains(index) <==> some_comes_back(chains, index)
            &&& run.pfns.contains(page) <==> some_lists(chains, mem, page)
        }),
    decreases chains.len(),
{
    let batch = inflate_batch(chains, mem, 0);
    lemma_batch(chains, mem, 0, index, page);
    if chains.len() > 0 {
        let n = batch.taken as int;
        let tail = chains.skip(n);
        assert forall|c: int| 0 <= c < tail.len() && lists_pages(#[trigger] tail[c]) implies mem.has_range(
            tail[c].descs[0].addr as int,
            tail[c].descs[0].len as int,
        ) by {
            assert(tail[c] == chains[c + n]);
        }
        lemma_run(tail, mem, index, page);
        let rest = inflate_run(tail, mem);
        lemma_some_split(chains, n, mem, index, page);
        lemma_in_either(batch.used, rest.used, index);
        lemma_in_either(batch.pfns, rest.pfns, page);
    } else {
        assert(chains.take(0) =~= chains);
    }
}

/// Whether a chain was given back to the guest, with nothing written to it.
pub open spec fn given_back(before: Queue, after: Queue, index: u16) -> bool {
    exists|u: int|
        before.used@.len() <= u < after.used@.len() && #[trigger] after.used@[u] == (UsedElement {
            id: index,
            len: 0,
        })
}

/// Whether memory that is given back to the host holds a page of 4096 bytes.
pub open spec fn holds_page(ranges: Seq<DiscardRange>, page: u32) -> bool {
    exists|d: int|
        0 <= d < ranges.len() && (#[trigger] ranges[d]).addr <= page * 4096 && page * 4096 + 4096
            <= ranges[d].addr + ranges[d].len
}

proof fn lemma_given_back(before: Queue, after: Queue, ids: Seq<u16>, index: u16)
    requires
        after.used@ == before.used@ + empty_entries(ids),
    ensures
        given_back(before, after, index) <==> ids.contains(index),
{
    if ids.contains(index) {
        let k = choose|k: int| 0 <= k < ids.len() && ids[k] == index;
        assert(after.used@[before.used@.len() + k] == (UsedElement { id: index, len: 0 }));
    }
    if given_back(before, after, index) {
        let u = choose|u: int|
            before.used@.len() <= u < after.used@.len() && #[trigger] after.used@[u] == (
            UsedElement { id: index, len: 0 });
        assert(ids[u - before.used@.len()] == index);
    }
}

/// Where all lists on the inflation queue are backed by memory, the guest gets back every chain
/// but those that list more than 256 pages, and exactly the pages that are listed are given back
/// to the host.
pub proof fn law_listed_pages_are_given_to_the_host(
    before: Queue,
    after: Queue,
    mem: GuestMemory,
    r: QueueOutcome,
    index: u16,
    page: u32,
)
    requires
        inflate_done(before, after, mem, r),
        before.pending() <= before.size,
        lists_are_backed(before.waiting(), mem),
    ensures
        r.result is Ok,
        after.next_avail == after.avail@.len(),
        after.published == after.used@.len(),
        given_back(before, after, index) <==> some_comes_back(before.waiting(), index),
        given_back(before, after, index) ==> r.interrupt,
        holds_page(r.discards@, page) <==> some_lists(before.waiting(), mem, page),
{
    let run = inflate_run(before.waiting(), mem);
    lemma_run(before.waiting(), mem, index, page);
    lemma_given_back(before, after, run.used, index);
    assert(crate::devices::virtio::balloon::queues::page_discarded(r.discards@, page as int)
        <==> holds_page(r.discards@, page));
    assert(crate::devices::virtio::balloon::util::among(
        run.pfns,
        run.pfns.len() as int,
        page as int,
    ) <==> run.pfns.contains(page)) by {
        if run.pfns.contains(page) {
            let k = choose|k: int| 0 <= k < run.pfns.len() && run.pfns[k] == page;
            assert(run.pfns[k] == page as int);
        }
    }
}

/// A chain that waits on the inflation queue and lists `n` pages, `n` at most 256, is given back
/// to the guest, and each of its pages is in the memory that is given back to the host, as long
/// as all lists on the queue are backed by memory.
pub proof fn law_list_of_pages(
    before: Queue,
    after: Queue,
    mem: GuestMemory,
    r: QueueOutcome,
    c: int,
    n: int,
    k: int,
)
    requires
        inflate_done(before, after, mem, r),
        before.pending() <= before.size,
        lists_are_backed(before.waiting(), mem),
        0 <= c < before.waiting().len(),
        !before.waiting()[c].descs[0].write_only,
        before.waiting()[c].descs[0].len == 4 * n,
        n <= 256,
        0 <= k < n,
    ensures
        given_back(before, after, before.waiting()[c].index),
        r.interrupt,
        holds_page(
            r.discards@,
            le32(mem.bytes(before.waiting()[c].descs[0].addr + 4 * k, 4)),
        ),
{
    let chain = before.waiting()[c];
    let page = listed(chain, mem, k);
    law_listed_pages_are_given_to_the_host(before, after, mem, r, chain.index, page);
    assert(lists_page(chain, mem, page));
}

/// The guest gets back every chain on the deflation queue, with one interrupt, and no memory is
/// given back to the host.
pub proof fn law_deflation_returns_every_chain(before: Queue, after: Queue, r: QueueOutcome, c: int)
    requires
        before.wf(),
        deflate_done(before, after, r),
        before.pending() <= before.size,
        0 <= c < before.waiting().len(),
    ensures
        after.used@.len() == before.used@.len() + before.waiting().len(),
        after.used@[before.used@.len() + c].id == before.waiting()[c].index,
        after.used@[before.used@.len() + c].len == 0,
        after.published == after.used@.len(),
        r.interrupt,
        r.discards@.len() == 0,
{
}

/// The statistic that a tag stands for.
pub open spec fn reported_value(stats: BalloonStats, tag: u16) -> Option<u64> {
    match tag {
        0 => stats.swap_in,
        1 => stats.swap_out,
        2 => stats.major_faults,
        3 => stats.minor_faults,
        4 => stats.free_memory,
        5 => stats.total_memory,
        6 => stats.available_memory,
        7 => stats.disk_caches,
        8 => stats.hugetlb_allocations,
        9 => stats.hugetlb_failures,
        10 => stats.oom_kill,
        11 => stats.alloc_stall,
        12 => stats.async_scan,
        13 => stats.direct_scan,
        14 => stats.async_reclaim,
        15 => stats.direct_reclaim,
        _ => None,
    }
}

/// Whether the sizes of a balloon are the same.
pub open spec fn same_sizes(a: BalloonStats, b: BalloonStats) -> bool {
    a.target_pages == b.target_pages && a.actual_pages == b.actual_pages && a.target_mib
        == b.target_mib && a.actual_mib == b.actual_mib
}

/// The tag of a report in a buffer of them: the first two of its ten bytes.
pub open spec fn report_tag(mem: GuestMemory, addr: int, i: int) -> u16 {
    le16(mem.bytes(addr + 10 * i, 2))
}

/// The value of a report in a buffer of them: the last eight of its ten bytes.
pub open spec fn report_value(mem: GuestMemory, addr: int, i: int) -> u64 {
    le64(mem.bytes(addr + 10 * i + 2, 8))
}

proof fn lemma_stat(mem: GuestMemory, addr: int, i: int)
    ensures
        stat_at(mem, addr + 10 * i).tag == report_tag(mem, addr, i),
        stat_at(mem, addr + 10 * i).val == report_value(mem, addr, i),
{
    let b = mem.bytes(addr + 10 * i, 10);
    assert(b.subrange(0, 2) =~= mem.bytes(addr + 10 * i, 2));
    assert(b.subrange(2, 10) =~= mem.bytes(addr + 10 * i + 2, 8));
}

/// A report sets the statistic of its tag and leaves all others as they are.
pub proof fn law_report_sets_its_statistic(stats: BalloonStats, stat: BalloonStat, tag: u16)
    requires
        tag < 16,
    ensures
        reported_value(stats_with(stats, stat), tag) == (if stat.tag == tag {
            Some(stat.val)
        } else {
            reported_value(stats, tag)
        }),
        same_sizes(stats_with(stats, stat), stats),
{
}

/// What is left of a buffer of reports.
proof fn lemma_reports(
    stats: BalloonStats,
    mem: GuestMemory,
    addr: int,
    n: int,
    from: int,
    tag: u16,
)
    requires
        0 <= from <= n,
        mem.has_range(addr, 10 * n),
        tag < 16,
    ensures
        ({
            let (read, complete) = reports_read(stats, mem, addr, 10 * n, 10 * from);
            &&& complete
            &&& same_sizes(read, stats)
            &&& forall|i: int|
                from <= i < n && #[trigger] report_tag(mem, addr, i) == tag && (forall|j: int|
                    i < j < n ==> #[trigger] report_tag(mem, addr, j) != tag) ==> reported_value(
                    read,
                    tag,
                ) == Some(report_value(mem, addr, i))
            &&& (forall|j: int| from <= j < n ==> #[trigger] report_tag(mem, addr, j) != tag)
                ==> reported_value(read, tag) == reported_value(stats, tag)
        }),
    decreases n - from,
{
    if from < n {
        assert(mem.has_range(addr + 10 * from, 10));
        lemma_stat(mem, addr, from);
        let next = stats_with(stats, stat_at(mem, addr + 10 * from));
        law_report_sets_its_statistic(stats, stat_at(mem, addr + 10 * from), tag);
        lemma_reports(next, mem, addr, n, from + 1, tag);
        assert(10 * from + 10 == 10 * (from + 1));
        let read = reports_read(stats, mem, addr, 10 * n, 10 * from).0;
        assert forall|i: int|
            from <= i < n && #[trigger] report_tag(mem, addr, i) == tag && (forall|j: int|
                i < j < n ==> #[trigger] report_tag(mem, addr, j) != tag) implies reported_value(
            read,
            tag,
        ) == Some(report_value(mem, addr, i)) by {}
    }
}

/// Of the reports in a buffer, the last one with a tag counts. A statistic that none reports stays
/// as it was.
pub proof fn law_last_report_counts(
    stats: BalloonStats,
    mem: GuestMemory,
    addr: int,
    n: int,
    tag: u16,
)
    requires
        0 <= n,
        mem.has_range(addr, 10 * n),
        tag < 16,
    ensures
        ({
            let (read, complete) = reports_read(stats, mem, addr, 10 * n, 0);
            &&& complete
            &&& same_sizes(read, stats)
            &&& forall|i: int|
                0 <= i < n && #[trigger] report_tag(mem, addr, i) == tag && (forall|j: int|
                    i < j < n ==> #[trigger] report_tag(mem, addr, j) != tag) ==> reported_value(
                    read,
                    tag,
                ) == Some(report_value(mem, addr, i))
            &&& (forall|j: int| 0 <= j < n ==> #[trigger] report_tag(mem, addr, j) != tag)
                ==> reported_value(read, tag) == reported_value(stats, tag)
        }),
{
    lemma_reports(stats, mem, addr, n, 0, tag);
}

/// A single buffer of `n` reports, at most 256, that the guest hands over is read and kept. The
/// buffer that was kept before, if any, is given back.
pub proof fn law_statistics_are_read_and_their_buffer_is_kept(
    before: Queue,
    after: Queue,
    mem: GuestMemory,
    stats: (BalloonStats, BalloonStats),
    kept: (Option<u16>, Option<u16>),
    r: QueueOutcome,
    n: int,
    tag: u16,
)
    requires
        stats_done(before, after, mem, stats, kept, r),
        before.pending() <= before.size,
        before.waiting().len() == 1,
        before.waiting()[0].descs[0].len == 10 * n,
        n <= 256,
        mem.has_range(before.waiting()[0].descs[0].addr as int, 10 * n),
        tag < 16,
    ensures
        r.result is Ok,
        kept.1 == Some(before.waiting()[0].index),
        kept.0 matches Some(index) ==> given_back(before, after, index) && r.interrupt
            && after.published == after.used@.len(),
        kept.0 is None ==> after.used@ == before.used@ && !r.interrupt,
        ({
            let addr = before.waiting()[0].descs[0].addr as int;
            &&& forall|i: int|
                0 <= i < n && #[trigger] report_tag(mem, addr, i) == tag && (forall|j: int|
                    i < j < n ==> #[trigger] report_tag(mem, addr, j) != tag) ==> reported_value(
                    stats.1,
                    tag,
                ) == Some(report_value(mem, addr, i))
            &&& (forall|j: int| 0 <= j < n ==> #[trigger] report_tag(mem, addr, j) != tag)
                ==> reported_value(stats.1, tag) == reported_value(stats.0, tag)
        }),
{
    let chains = before.waiting();
    let addr = chains[0].descs[0].addr as int;
    lemma_reports(stats.0, mem, addr, n, 0, tag);
    let read = reports_read(stats.0, mem, addr, 10 * n, 0).0;
    let rest = stats_run(chains.skip(1), mem, read, Some(chains[0].index));
    assert(chains.skip(1).len() == 0);
    assert(rest.used.len() == 0);
    let run = stats_run(chains, mem, stats.0, kept.0);
    match kept.0 {
        Some(index) => {
            assert(run.used =~= seq![index]);
            assert(run.used[0] == index);
            assert(run.used.contains(index));
            lemma_given_back(before, after, run.used, index);
        },
        None => {
            assert(run.used.len() == 0);
        },
    }
}

/// Whether the guest reported a piece of memory: it is one of the buffers of a chain.
pub open spec fn some_reports(chains: Seq<ChainView>, range: DiscardRange) -> bool {
    exists|c: int, d: int|
        0 <= c < chains.len() && 0 <= d < chains[c].descs.len() && (#[trigger] chains[c].descs[d]).addr
            == range.addr && chains[c].descs[d].len == range.len
}

proof fn lemma_reported(chains: Seq<ChainView>, range: DiscardRange)
    ensures
        reported(chains).contains(range) <==> some_reports(chains, range),
    decreases chains.len(),
{
    if chains.len() > 0 {
        let sooner = chains.drop_last();
        let last = chains.last();
        let n = chains.len() - 1;
        lemma_reported(sooner, range);
        lemma_in_either(reported(sooner), ranges_of(last.descs), range);
        if some_reports(chains, range) {
            let (c, d) = choose|c: int, d: int|
                0 <= c < chains.len() && 0 <= d < chains[c].descs.len() && (
                #[trigger] chains[c].descs[d]).addr == range.addr && chains[c].descs[d].len
                    == range.len;
            if c < n {
                assert(sooner[c].descs[d] == chains[c].descs[d]);
            } else {
                assert(ranges_of(last.descs)[d] == range);
            }
        }
        if some_reports(sooner, range) {
            let (c, d) = choose|c: int, d: int|
                0 <= c < sooner.len() && 0 <= d < sooner[c].descs.len() && (
                #[trigger] sooner[c].descs[d]).addr == range.addr && sooner[c].descs[d].len
                    == range.len;
            assert(chains[c].descs[d] == sooner[c].descs[d]);
        }
        if ranges_of(last.descs).contains(range) {
            let d = choose|d: int|
                0 <= d < ranges_of(last.descs).len() && ranges_of(last.descs)[d] == range;
            assert(chains[n].descs[d].addr == range.addr);
        }
    }
}

/// Exactly the memory that the guest reports as free is given back to the host: the buffers of all
/// chains on the reporting queue. The guest gets every chain back.
pub proof fn law_reported_memory_is_given_to_the_host(
    before: Queue,
    after: Queue,
    r: QueueOutcome,
    range: DiscardRange,
    c: int,
)
    requires
        before.wf(),
        reporting_done(before, after, r),
        before.pending() <= before.size,
        0 <= c < before.waiting().len(),
    ensures
        r.result is Ok,
        r.interrupt,
        r.discards@.contains(range) <==> some_reports(before.waiting(), range),
        after.used@[before.used@.len() + c].id == before.waiting()[c].index,
        after.used@[before.used@.len() + c].len == 0,
        after.published == after.used@.len(),
{
    lemma_reported(before.waiting(), range);
}

/// The command that the guest gave last, before a buffer of a chain: a buffer of four bytes holds
/// a command.
pub open spec fn command_before(
    descs: Seq<Descriptor>,
    mem: GuestMemory,
    first: Option<u32>,
    d: int,
) -> Option<u32>
    decreases d,
{
    if d <= 0 {
        first
    } else if descs[d - 1].len == 4 {
        Some(le32(mem.bytes(descs[d - 1].addr as int, 4)))
    } else {
        command_before(descs, mem, first, d - 1)
    }
}

/// Whether a chain hints at a piece of memory under the command of the host, which is neither zero
/// nor one.
pub open spec fn hints_at(
    descs: Seq<Descriptor>,
    mem: GuestMemory,
    host_cmd: u32,
    first: Option<u32>,
    range: DiscardRange,
) -> bool {
    exists|d: int|
        0 <= d < descs.len() && host_cmd > 1 && (#[trigger] descs[d]).len != 4 && command_before(
            descs,
            mem,
            first,
            d,
        ) == Some(host_cmd) && descs[d].addr == range.addr && descs[d].len == range.len
}

/// Whether all commands in a chain are backed by memory.
pub open spec fn commands_are_backed(descs: Seq<Descriptor>, mem: GuestMemory) -> bool {
    forall|d: int|
        0 <= d < descs.len() && (#[trigger] descs[d]).len == 4 ==> mem.has_range(
            descs[d].addr as int,
            4,
        )
}

proof fn lemma_command_shift(
    descs: Seq<Descriptor>,
    mem: GuestMemory,
    first: Option<u32>,
    d: int,
)
    requires
        1 <= d <= descs.len(),
    ensures
        command_before(descs, mem, first, d) == command_before(
            descs.skip(1),
            mem,
            command_before(descs, mem, first, 1),
            d - 1,
        ),
    decreases d,
{
    if d > 1 {
        lemma_command_shift(descs, mem, first, d - 1);
        assert(descs.skip(1)[d - 2] == descs[d - 1]);
    }
}

/// The hints of one chain that count are those under the command of the host. After it, the
/// guest's command is the last one of the chain.
pub proof fn law_hints_count_under_the_command_of_the_host(
    descs: Seq<Descriptor>,
    mem: GuestMemory,
    host_cmd: u32,
    progress: HintProgress,
    range: DiscardRange,
)
    requires
        commands_are_backed(descs, mem),
    ensures
        ({
            let run = hint_chain(descs, mem, host_cmd, progress);
            &&& !run.malformed
            &&& run.discards.contains(range) <==> hints_at(
                descs,
                mem,
                host_cmd,
                progress.guest_cmd,
                range,
            )
            &&& run.progress.guest_cmd == command_before(
                descs,
                mem,
                progress.guest_cmd,
                descs.len() as int,
            )
            &&& run.progress.complete == (if exists|d: int|
                0 <= d < descs.len() && (#[trigger] descs[d]).len == 4 {
                run.progress.guest_cmd == Some(0u32) || run.progress.guest_cmd == Some(1u32)
            } else {
                progress.complete
            })
        }),
    decreases descs.len(),
{
    let run = hint_chain(descs, mem, host_cmd, progress);
    let first = progress.guest_cmd;
    if descs.len() > 0 {
        let tail = descs.skip(1);
        assert forall|d: int| 0 <= d < tail.len() && (#[trigger] tail[d]).len == 4 implies mem.has_range(
            tail[d].addr as int,
            4,
        ) by {
            assert(tail[d] == descs[d + 1]);
        }
        let cmd = le32(mem.bytes(descs[0].addr as int, 4));
        assert(command_before(descs, mem, first, 0) == first);
        let next_cmd = command_before(descs, mem, first, 1);
        let next = if descs[0].len == 4 {
            HintProgress { guest_cmd: Some(cmd), complete: cmd == 0 || cmd == 1 }
        } else {
            progress
        };
        assert(next.guest_cmd == next_cmd);
        law_hints_count_under_the_command_of_the_host(tail, mem, host_cmd, next, range);
        let rest = hint_chain(tail, mem, host_cmd, next);
        lemma_command_shift(descs, mem, first, descs.len() as int);
        let own = DiscardRange { addr: descs[0].addr, len: descs[0].len as u64 };
        let counts = descs[0].len != 4 && host_cmd > 1 && first == Some(host_cmd);
        if counts {
            lemma_in_either(seq![own], rest.discards, range);
            if own == range {
                assert(seq![own][0] == range);
            }
        }
        assert(run.discards.contains(range) <==> counts && own == range || rest.discards.contains(
            range,
        ));
        if hints_at(descs, mem, host_cmd, first, range) {
            let d = choose|d: int|
                0 <= d < descs.len() && host_cmd > 1 && (#[trigger] descs[d]).len != 4
                    && command_before(descs, mem, first, d) == Some(host_cmd) && descs[d].addr
                    == range.addr && descs[d].len == range.len;
            if d > 0 {
                lemma_command_shift(descs, mem, first, d);
                assert(tail[d - 1] == descs[d]);
                assert(hints_at(tail, mem, host_cmd, next_cmd, range));
            }
        }
        if hints_at(tail, mem, host_cmd, next_cmd, range) {
            let d = choose|d: int|
                0 <= d < tail.len() && host_cmd > 1 && (#[trigger] tail[d]).len != 4
                    && command_before(tail, mem, next_cmd, d) == Some(host_cmd) && tail[d].addr
                    == range.addr && tail[d].len == range.len;
            lemma_command_shift(descs, mem, first, d + 1);
            assert(tail[d] == descs[d + 1]);
            assert(hints_at(descs, mem, host_cmd, first, range));
        }
        if counts && own == range {
            assert(descs[0].addr == range.addr);
            assert(hints_at(descs, mem, host_cmd, first, range));
        }
        if exists|d: int| 0 <= d < tail.len() && (#[trigger] tail[d]).len == 4 {
            let d = choose|d: int| 0 <= d < tail.len() && (#[trigger] tail[d]).len == 4;
            assert(descs[d + 1] == tail[d]);
        } else {
            assert forall|d: int| 0 <= d < descs.len() && d > 0 implies (#[trigger] descs[d]).len
                != 4 by {
                assert(tail[d - 1] == descs[d]);
            }
        }
        if descs[0].len == 4 {
            lemma_no_command(tail, mem, next_cmd, tail.len() as int);
        }
    }
}

/// Without a command in a chain, the command stays.
proof fn lemma_no_command(descs: Seq<Descriptor>, mem: GuestMemory, first: Option<u32>, d: int)
    requires
        0 <= d <= descs.len(),
    ensures
        (forall|i: int| 0 <= i < descs.len() ==> (#[trigger] descs[i]).len != 4) ==> command_before(
            descs,
            mem,
            first,
            d,
        ) == first,
    decreases d,
{
    if d > 0 {
        lemma_no_command(descs, mem, first, d - 1);
    }
}

/// A chain of hints that waits alone: its hints that count are given back to the host, the guest
/// gets it back, and the run is over if its last command says so.
pub proof fn law_hinted_memory_is_given_to_the_host(
    before: Queue,
    after: Queue,
    mem: GuestMemory,
    host_cmd: u32,
    guest_cmd: (Option<u32>, Option<u32>),
    r: (QueueOutcome, bool),
    range: DiscardRange,
)
    requires
        hinting_done(before, after, mem, host_cmd, guest_cmd, r),
        before.pending() <= before.size,
        before.waiting().len() == 1,
        commands_are_backed(before.waiting()[0].descs, mem),
    ensures
        r.0.result is Ok,
        r.0.interrupt,
        given_back(before, after, before.waiting()[0].index),
        after.published == after.used@.len(),
        r.0.discards@.contains(range) <==> hints_at(
            before.waiting()[0].descs,
            mem,
            host_cmd,
            guest_cmd.0,
            range,
        ),
        guest_cmd.1 == command_before(
            before.waiting()[0].descs,
            mem,
            guest_cmd.0,
            before.waiting()[0].descs.len() as int,
        ),
        r.1 ==> guest_cmd.1 == Some(0u32) || guest_cmd.1 == Some(1u32),
        !r.1 && (guest_cmd.1 == Some(0u32) || guest_cmd.1 == Some(1u32)) ==> guest_cmd.1
            == guest_cmd.0,
{
    let chains = before.waiting();
    let begin = HintProgress { guest_cmd: guest_cmd.0, complete: false };
    law_hints_count_under_the_command_of_the_host(chains[0].descs, mem, host_cmd, begin, range);
    let one = hint_chain(chains[0].descs, mem, host_cmd, begin);
    let (taken, rest) = hint_run(chains.skip(1), mem, host_cmd, one.progress);
    assert(chains.skip(1).len() == 0);
    assert(taken == 0 && rest.discards.len() == 0);
    assert(one.discards + rest.discards =~= one.discards);
    let ids = crate::devices::virtio::balloon::queues::heads(chains, 1);
    assert(ids[0] == chains[0].index);
    assert(ids.contains(chains[0].index));
    lemma_given_back(before, after, ids, chains[0].index);
    if !one.progress.complete {
        if !(exists|d: int|
            0 <= d < chains[0].descs.len() && (#[trigger] chains[0].descs[d]).len == 4) {
            lemma_no_command(chains[0].descs, mem, guest_cmd.0, chains[0].descs.len() as int);
        }
    }
}

/// Work on the deflation queue changes nothing but which chains were taken and given back; on a queue
/// that offers more than it can hold it changes nothing, and says how much is offered.
pub proof fn law_deflation_changes_nothing_else(before: Queue, after: Queue, r: QueueOutcome)
    requires
        deflate_done(before, after, r),
    ensures
        after.size == before.size,
        after.avail == before.avail,
        after.staged == before.staged,
        after.notify == before.notify,
        r.discards@.len() == 0,
        before.pending() > before.size ==> after.next_avail == before.next_avail && after.used
            == before.used && after.published == before.published && !r.interrupt && r.result is Err,
        before.pending() <= before.size ==> r.result is Ok && after.next_avail
            == before.avail@.len(),
        before.pending() == 0 ==> !r.interrupt,
{
}

/// The driver hears of the inflation queue exactly when chains are given back to it and all went well.
/// After an error it is shown nothing new.
pub proof fn law_inflation_is_told(before: Queue, after: Queue, mem: GuestMemory, r: QueueOutcome)
    requires
        inflate_done(before, after, mem, r),
    ensures
        r.interrupt ==> r.result is Ok && after.used@.len() > before.used@.len(),
        r.result is Ok && after.used@.len() > before.used@.len() ==> r.interrupt,
        r.result is Ok ==> after.published == after.used@.len() && after.pending() == 0,
        r.result is Err ==> after.published == before.published,
        r.result is Ok <==> before.pending() <= before.size && !inflate_run(
            before.waiting(),
            mem,
        ).malformed,
        before.pending() > before.size ==> r.discards@.len() == 0 && after.used == before.used,
        after.size == before.size,
        after.avail == before.avail,
        after.staged == before.staged,
        after.notify == before.notify,
{
}

/// A chain of hints cannot be read exactly when a command in it is not backed by memory; the run is
/// not complete then.
pub proof fn law_commands_must_be_in_memory(
    descs: Seq<Descriptor>,
    mem: GuestMemory,
    host_cmd: u32,
    progress: HintProgress,
)
    ensures
        hint_chain(descs, mem, host_cmd, progress).malformed <==> exists|d: int|
            0 <= d < descs.len() && (#[trigger] descs[d]).len == 4 && !mem.has_range(
                descs[d].addr as int,
                4,
            ),
        hint_chain(descs, mem, host_cmd, progress).malformed ==> !hint_chain(
            descs,
            mem,
            host_cmd,
            progress,
        ).progress.complete,
    decreases descs.len(),
{
    if descs.len() > 0 {
        let rest = descs.skip(1);
        let bad = |s: Seq<Descriptor>, d: int|
            0 <= d < s.len() && s[d].len == 4 && !mem.has_range(s[d].addr as int, 4);
        assert(forall|d: int| 0 <= d < rest.len() ==> #[trigger] rest[d] == descs[d + 1]);
        if bad(descs, 0) {
            assert(descs[0].len == 4);
        } else {
            let next = if descs[0].len == 4 {
                let cmd = le32(mem.bytes(descs[0].addr as int, 4));
                HintProgress { guest_cmd: Some(cmd), complete: cmd == 0 || cmd == 1 }
            } else {
                progress
            };
            law_commands_must_be_in_memory(rest, mem, host_cmd, next);
            if hint_chain(rest, mem, host_cmd, next).malformed {
                let d = choose|d: int|
                    0 <= d < rest.len() && (#[trigger] rest[d]).len == 4 && !mem.has_range(
                        rest[d].addr as int,
                        4,
                    );
                assert(descs[d + 1].len == 4);
            }
            if exists|d: int|
                0 <= d < descs.len() && (#[trigger] descs[d]).len == 4 && !mem.has_range(
                    descs[d].addr as int,
                    4,
                ) {
                let d = choose|d: int|
                    0 <= d < descs.len() && (#[trigger] descs[d]).len == 4 && !mem.has_range(
                        descs[d].addr as int,
                        4,
                    );
                assert(d > 0);
                assert(rest[d - 1] == descs[d]);
            }
        }
    }
}

} // verus!
