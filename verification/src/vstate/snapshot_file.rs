//! Where every byte of guest memory goes in a snapshot file.

use vstd::prelude::*;

use crate::vstate::dump::{
    bitmap_words, changed_plan, changed_steps, dirty_flags, first_slots, full_step,
    law_runs_span_all_pages, marks_behind, memory_slots, pages_of, region_slots, runs,
    region_reset, slot_dump, slots_len, step_len, steps_len, stored_marks, word_marks, DumpStep,
    PlacedSlot,
};
use crate::vstate::memory::{dirty_bits, dirty_page, touches, GuestRegionMmapExt, MemoryError};
use crate::vstate::memory_map::{page_marked, region_marked, regions_wf, RangeChunk};
use crate::vstate::resources::bits;

verus! {

/// The byte of guest memory that steps write to a position of the file: its region and its offset
/// there. Nothing is written where a step skips, and behind the last step.
pub open spec fn file_source(steps: Seq<DumpStep>, pos: int) -> Option<(int, int)>
    decreases steps.len(),
{
    if steps.len() == 0 {
        None
    } else {
        let sooner = steps_len(steps.drop_last());
        if pos < sooner {
            file_source(steps.drop_last(), pos)
        } else {
            match steps.last() {
                DumpStep::Write { region, offset, len } => if pos < sooner + len {
                    Some((region as int, offset + (pos - sooner)))
                } else {
                    None
                },
                DumpStep::Skip { len } => None,
            }
        }
    }
}

/// The number of bytes of the regions before one.
pub open spec fn bytes_before(regions: Seq<GuestRegionMmapExt>, i: int) -> int
    decreases i,
{
    if i <= 0 {
        0
    } else {
        bytes_before(regions, i - 1) + bits(regions[i - 1].plugged).len()
            * regions[i - 1].slot_size
    }
}

/// Whether a bit of a bitmap is set.
pub open spec fn bit_is_set(words: Seq<u64>, n: int) -> bool {
    0 <= n < words.len() * 64 && words[n / 64] & (1u64 << ((n % 64) as u64)) != 0
}

/// Whether the monitor itself noted a write to the page at an offset of a region.
pub open spec fn noted(region: GuestRegionMmapExt, offset: int) -> bool {
    match region.dirty {
        Some(b) => {
            let n = offset / dirty_page(b) as int;
            n < dirty_bits(b).len() && dirty_bits(b)[n]
        },
        None => false,
    }
}

/// Whether the hypervisor or the monitor saw a write to the page of a byte of a region. Pages are
/// counted from the start of the slot, and each slot has its own bitmap.
pub open spec fn byte_changed(
    region: GuestRegionMmapExt,
    dirty_bitmap: Map<u32, Vec<u64>>,
    page: int,
    x: int,
) -> bool {
    let slot_size = region.slot_size as int;
    let slot = (region.slot_from + x / slot_size) as u32;
    let p = (x % slot_size) / page;
    bit_is_set(dirty_bitmap[slot]@, p) || noted(region, x / slot_size * slot_size + p * page)
}

proof fn lemma_len_is_no_debt(steps: Seq<DumpStep>)
    ensures
        steps_len(steps) >= 0,
    decreases steps.len(),
{
    if steps.len() > 0 {
        lemma_len_is_no_debt(steps.drop_last());
    }
}

/// Steps behind others write behind them.
proof fn lemma_joined(a: Seq<DumpStep>, b: Seq<DumpStep>, pos: int)
    ensures
        steps_len(a + b) == steps_len(a) + steps_len(b),
        0 <= pos < steps_len(a) ==> file_source(a + b, pos) == file_source(a, pos),
        pos >= steps_len(a) ==> file_source(a + b, pos) == file_source(b, pos - steps_len(a)),
    decreases b.len(),
{
    lemma_len_is_no_debt(b);
    if b.len() == 0 {
        assert(a + b =~= a);
        if a.len() > 0 {
            lemma_behind(a, pos);
        }
    } else {
        lemma_joined(a, b.drop_last(), pos);
        lemma_len_is_no_debt(b.drop_last());
        assert((a + b).drop_last() =~= a + b.drop_last());
    }
}

/// Nothing is written behind the last step.
proof fn lemma_behind(a: Seq<DumpStep>, pos: int)
    ensures
        pos >= steps_len(a) ==> file_source(a, pos) is None,
    decreases a.len(),
{
    if a.len() > 0 {
        lemma_behind(a.drop_last(), pos);
        lemma_len_is_no_debt(a.drop_last());
    }
}

/// The runs of a slot write the pages that are marked, each at its own place, and no others.
proof fn lemma_runs(flags: Seq<bool>, region: usize, base: int, page: int, y: int)
    requires
        0 <= base,
        0 < page,
        flags.len() * page + page <= usize::MAX,
        base + flags.len() * page <= usize::MAX,
        0 <= y < flags.len() * page,
    ensures
        0 <= y / page < flags.len(),
        file_source(runs(flags, region, base, page), y) == (if flags[y / page] {
            Some((region as int, base + y))
        } else {
            None
        }),
    decreases flags.len(),
{
    let n = flags.len() as int;
    assert(0 <= y / page < n) by (nonlinear_arith)
        requires
            0 <= y < n * page,
            0 < page,
    ;
    let sooner = flags.drop_last();
    let before = runs(sooner, region, base, page);
    let all = runs(flags, region, base, page);
    assert(n * page == (n - 1) * page + page) by (nonlinear_arith);
    assert((n - 1) * page >= 0) by (nonlinear_arith)
        requires
            n >= 1,
            page > 0,
    ;
    law_runs_span_all_pages(sooner, region, base, page);
    law_runs_span_all_pages(flags, region, base, page);
    let end = (n - 1) * page;
    if y >= end {
        assert(y / page == n - 1) by (nonlinear_arith)
            requires
                (n - 1) * page <= y < n * page,
                page > 0,
        ;
    } else {
        lemma_runs(sooner, region, base, page, y);
        assert(sooner[y / page] == flags[y / page]);
    }
    if all.len() == before.len() + 1 {
        assert(all.drop_last() =~= before);
    } else {
        // The last run grew.
        assert(all.drop_last() =~= before.drop_last());
        let start = steps_len(before.drop_last());
        lemma_len_is_no_debt(before.drop_last());
        assert(0 < step_len(before.last()));
        assert(start < end);
        lemma_runs(sooner, region, base, page, start);
    }
}

/// Shifting a bit down and masking it out tell the same.
proof fn lemma_bit(w: u64, k: u64)
    requires
        k < 64,
    ensures
        ((w >> k) & 1 != 0) == (w & (1u64 << k) != 0),
{
    assert(((w >> k) & 1 != 0) == (w & (1u64 << k) != 0)) by (bit_vector)
        requires
            k < 64,
    ;
}

/// Whether the page of a byte of a slot was written to.
spec fn slot_byte_changed(
    regions: Seq<GuestRegionMmapExt>,
    s: PlacedSlot,
    dirty_bitmap: Map<u32, Vec<u64>>,
    page: int,
    y: int,
) -> bool {
    bit_is_set(dirty_bitmap[s.slot.slot]@, y / page) || noted(
        regions[s.region as int],
        s.slot.offset + y / page * page,
    )
}

/// What is planned for a slot writes the bytes that changed, each at its own place.
proof fn lemma_slot(
    regions: Seq<GuestRegionMmapExt>,
    s: PlacedSlot,
    dirty_bitmap: Map<u32, Vec<u64>>,
    page: int,
    y: int,
)
    requires
        0 < page,
        s.slot.len as int % page == 0,
        s.slot.len + 64 * page <= usize::MAX,
        s.slot.offset + s.slot.len <= usize::MAX,
        changed_steps(regions, s, dirty_bitmap, page).1 is None,
        0 <= y < s.slot.len,
    ensures
        steps_len(changed_steps(regions, s, dirty_bitmap, page).0) == s.slot.len,
        file_source(changed_steps(regions, s, dirty_bitmap, page).0, y) == (if s.plugged
            && slot_byte_changed(regions, s, dirty_bitmap, page, y) {
            Some((s.region as int, s.slot.offset + y))
        } else {
            None
        }),
{
    let steps = changed_steps(regions, s, dirty_bitmap, page).0;
    if !s.plugged {
        assert(steps.drop_last() =~= Seq::<DumpStep>::empty());
    } else {
        let len = s.slot.len as int;
        let words = dirty_bitmap[s.slot.slot]@;
        let region = regions[s.region as int];
        let flags = dirty_flags(region, s.slot, words, page);
        let q = len / page;
        vstd::arithmetic::div_mod::lemma_fundamental_div_mod(len, page);
        assert(len == q * page) by (nonlinear_arith)
            requires
                len == page * q + 0,
        ;
        assert((len + page - 1) / page == q) by (nonlinear_arith)
            requires
                len == q * page,
                page > 0,
        ;
        assert(words.len() == bitmap_words(len, page));
        assert(words.len() * 64 >= q);
        assert(flags.len() == q);
        let base = s.slot.offset as int;
        assert(flags.len() * page == len);
        lemma_runs(flags, s.region, base, page, y);
        law_runs_span_all_pages(flags, s.region, base, page);
        let p = y / page;
        lemma_bit(words[p / 64], (p % 64) as u64);
    }
}

/// What is planned for slots writes the bytes that changed, each at its own place.
proof fn lemma_plan(
    regions: Seq<GuestRegionMmapExt>,
    slots: Seq<PlacedSlot>,
    dirty_bitmap: Map<u32, Vec<u64>>,
    page: int,
    k: int,
    y: int,
)
    requires
        0 < page,
        forall|j: int|
            0 <= j < slots.len() ==> (#[trigger] slots[j]).slot.len as int % page == 0
                && slots[j].slot.len > 0 && slots[j].slot.len + 64 * page <= usize::MAX
                && slots[j].slot.offset + slots[j].slot.len <= usize::MAX,
        changed_plan(regions, slots, dirty_bitmap, page).1 is None,
        0 <= k < slots.len(),
        0 <= y < slots[k].slot.len,
    ensures
        steps_len(changed_plan(regions, slots, dirty_bitmap, page).0) == slots_len(slots),
        file_source(
            changed_plan(regions, slots, dirty_bitmap, page).0,
            slots_len(slots.take(k)) + y,
        ) == (if slots[k].plugged && slot_byte_changed(regions, slots[k], dirty_bitmap, page, y) {
            Some((slots[k].region as int, slots[k].slot.offset + y))
        } else {
            None
        }),
    decreases slots.len(),
{
    let sooner = slots.drop_last();
    let n = slots.len() - 1;
    let before = changed_plan(regions, sooner, dirty_bitmap, page).0;
    let last = changed_steps(regions, slots.last(), dirty_bitmap, page).0;
    lemma_slots_len(slots.take(k));
    if n > 0 {
        assert forall|j: int| 0 <= j < sooner.len() implies (#[trigger] sooner[j]).slot.len as int
            % page == 0 && sooner[j].slot.len > 0 && sooner[j].slot.len + 64 * page <= usize::MAX
            && sooner[j].slot.offset + sooner[j].slot.len <= usize::MAX by {
            assert(sooner[j] == slots[j]);
        }
        lemma_plan(regions, sooner, dirty_bitmap, page, 0, 0);
    }
    assert(steps_len(before) == slots_len(sooner));
    if k == n {
        assert(slots.take(k) =~= sooner);
        lemma_slot(regions, slots[n], dirty_bitmap, page, y);
        lemma_joined(before, last, slots_len(sooner) + y);
    } else {
        assert(sooner[k] == slots[k]);
        lemma_plan(regions, sooner, dirty_bitmap, page, k, y);
        assert(sooner.take(k) =~= slots.take(k));
        lemma_slot(regions, slots[n], dirty_bitmap, page, 0);
        lemma_before_end(sooner, k, y);
        lemma_joined(before, last, slots_len(slots.take(k)) + y);
    }
}

proof fn lemma_slots_len(slots: Seq<PlacedSlot>)
    ensures
        slots_len(slots) >= 0,
    decreases slots.len(),
{
    if slots.len() > 0 {
        lemma_slots_len(slots.drop_last());
    }
}

/// A byte of a slot lies before the end of all slots.
proof fn lemma_before_end(slots: Seq<PlacedSlot>, k: int, y: int)
    requires
        0 <= k < slots.len(),
        0 <= y < slots[k].slot.len,
    ensures
        slots_len(slots.take(k)) + y < slots_len(slots),
    decreases slots.len(),
{
    if k == slots.len() - 1 {
        assert(slots.take(k) =~= slots.drop_last());
    } else {
        lemma_before_end(slots.drop_last(), k, y);
        assert(slots.drop_last().take(k) =~= slots.take(k));
    }
}

/// The slots of a list of slots and another one behind it.
proof fn lemma_slots_joined(a: Seq<PlacedSlot>, b: Seq<PlacedSlot>)
    ensures
        slots_len(a + b) == slots_len(a) + slots_len(b),
    decreases b.len(),
{
    if b.len() == 0 {
        assert(a + b =~= a);
    } else {
        lemma_slots_joined(a, b.drop_last());
        assert((a + b).drop_last() =~= a + b.drop_last());
    }
}

/// The first slots of a region span as many bytes as they have.
proof fn lemma_region_len(regions: Seq<GuestRegionMmapExt>, i: int, j: int)
    requires
        0 <= i < regions.len(),
        0 <= j <= bits(regions[i].plugged).len(),
    ensures
        slots_len(region_slots(regions, i).take(j)) == j * regions[i].slot_size,
    decreases j,
{
    let slots = region_slots(regions, i).take(j);
    if j > 0 {
        lemma_region_len(regions, i, j - 1);
        assert(slots.drop_last() =~= region_slots(regions, i).take(j - 1));
        assert(j * regions[i].slot_size == (j - 1) * regions[i].slot_size + regions[i].slot_size)
            by (nonlinear_arith);
    } else {
        assert(0 * regions[i].slot_size == 0) by (nonlinear_arith);
    }
}

/// Where a slot of a region stands among the slots of guest memory.
proof fn lemma_index(regions: Seq<GuestRegionMmapExt>, n: int, i: int, j: int)
    requires
        0 <= i < n <= regions.len(),
        0 <= j < bits(regions[i].plugged).len(),
    ensures
        ({
            let slots = first_slots(regions, n);
            let at = first_slots(regions, i).len() + j;
            &&& 0 <= at < slots.len()
            &&& slots[at] == region_slots(regions, i)[j]
            &&& slots_len(slots.take(at)) == bytes_before(regions, i) + j * regions[i].slot_size
        }),
    decreases n,
{
    let slots = first_slots(regions, n);
    let at = first_slots(regions, i).len() + j;
    if i == n - 1 {
        let before = first_slots(regions, i);
        lemma_span(regions, i);
        lemma_region_len(regions, i, j);
        lemma_slots_joined(before, region_slots(regions, i).take(j));
        assert(slots.take(at) =~= before + region_slots(regions, i).take(j));
    } else {
        lemma_index(regions, n - 1, i, j);
        assert(slots.take(at) =~= first_slots(regions, n - 1).take(at));
    }
}

/// The slots of the first regions span their bytes.
proof fn lemma_span(regions: Seq<GuestRegionMmapExt>, n: int)
    requires
        0 <= n <= regions.len(),
    ensures
        slots_len(first_slots(regions, n)) == bytes_before(regions, n),
    decreases n,
{
    if n > 0 {
        lemma_span(regions, n - 1);
        let last = region_slots(regions, n - 1);
        lemma_region_len(regions, n - 1, bits(regions[n - 1].plugged).len() as int);
        assert(last.take(last.len() as int) =~= last);
        lemma_slots_joined(first_slots(regions, n - 1), last);
    }
}

/// Every slot is one of a region.
proof fn lemma_each_slot(regions: Seq<GuestRegionMmapExt>, n: int, k: int)
    requires
        regions_wf(regions),
        regions.len() <= usize::MAX,
        0 <= n <= regions.len(),
        0 <= k < first_slots(regions, n).len(),
    ensures
        ({
            let s = first_slots(regions, n)[k];
            &&& s.region < regions.len()
            &&& s.slot.len == regions[s.region as int].slot_size
            &&& s.slot.len > 0
            &&& s.slot.offset + s.slot.len <= regions[s.region as int].size
            &&& exists|j: int|
                0 <= j < bits(regions[s.region as int].plugged).len()
                    && s == #[trigger] region_slots(regions, s.region as int)[j]
        }),
    decreases n,
{
    if n > 0 {
        let before = first_slots(regions, n - 1);
        if k < before.len() {
            lemma_each_slot(regions, n - 1, k);
        } else {
            let j = k - before.len();
            let r = regions[n - 1];
            assert(r.wf());
            lemma_slot_place(r, j);
            assert(first_slots(regions, n)[k] == region_slots(regions, n - 1)[j]);
        }
    }
}

/// A slot lies in its region.
proof fn lemma_slot_place(r: GuestRegionMmapExt, j: int)
    requires
        r.wf(),
        0 <= j < bits(r.plugged).len(),
    ensures
        0 <= j * r.slot_size,
        j * r.slot_size + r.slot_size <= r.size,
{
    let (s, size) = (r.slot_size as int, r.size as int);
    assert(j * s >= 0 && j * s + s <= size) by (nonlinear_arith)
        requires
            0 <= j < size / s,
            s > 0,
    ;
}

/// The slot of a byte of a region.
proof fn lemma_byte_place(r: GuestRegionMmapExt, x: int)
    requires
        r.wf(),
        0 <= x < bits(r.plugged).len() * r.slot_size,
    ensures
        0 <= x / r.slot_size as int,
        x / (r.slot_size as int) < bits(r.plugged).len(),
        x == x / r.slot_size as int * r.slot_size + x % r.slot_size as int,
        0 <= x % (r.slot_size as int) < r.slot_size,
{
    let (s, c) = (r.slot_size as int, bits(r.plugged).len() as int);
    vstd::arithmetic::div_mod::lemma_fundamental_div_mod(x, s);
    assert(0 <= x / s < c && x == x / s * s + x % s) by (nonlinear_arith)
        requires
            0 <= x < c * s,
            s > 0,
            x == s * (x / s) + x % s,
    ;
}

/// When the pages that changed are written, a byte of guest memory goes to its own place in the
/// file if its slot is plugged and the hypervisor or the monitor saw a write to its page. Nothing
/// is written to that place otherwise. The place of a byte is where it would be if all of memory
/// were written.
pub proof fn law_changed_bytes_are_in_the_file(
    regions: Seq<GuestRegionMmapExt>,
    dirty_bitmap: Map<u32, Vec<u64>>,
    page: int,
    steps: Seq<DumpStep>,
    i: int,
    x: int,
)
    requires
        regions_wf(regions),
        regions.len() <= usize::MAX,
        0 < page,
        forall|r: int|
            0 <= r < regions.len() ==> (#[trigger] regions[r]).slot_size as int % page == 0
                && regions[r].slot_size + 64 * page <= usize::MAX,
        changed_plan(regions, memory_slots(regions), dirty_bitmap, page) == (
            steps,
            None::<MemoryError>,
        ),
        0 <= i < regions.len(),
        0 <= x < bits(regions[i].plugged).len() * regions[i].slot_size,
    ensures
        file_source(steps, bytes_before(regions, i) + x) == (if bits(regions[i].plugged)[x
            / regions[i].slot_size as int] && byte_changed(regions[i], dirty_bitmap, page, x) {
            Some((i, x))
        } else {
            None
        }),
{
    let r = regions[i];
    assert(r.wf());
    let s = r.slot_size as int;
    let (j, y) = (x / s, x % s);
    lemma_byte_place(r, x);
    lemma_slot_place(r, j);
    lemma_index(regions, regions.len() as int, i, j);
    let slots = memory_slots(regions);
    let at = first_slots(regions, i).len() + j;
    assert forall|k: int| 0 <= k < slots.len() implies (#[trigger] slots[k]).slot.len as int % page
        == 0 && slots[k].slot.len > 0 && slots[k].slot.len + 64 * page <= usize::MAX
        && slots[k].slot.offset + slots[k].slot.len <= usize::MAX by {
        lemma_each_slot(regions, regions.len() as int, k);
        assert(regions[slots[k].region as int].slot_size as int % page == 0);
    }
    assert(slots[at].slot == r.slot_at(j));
    lemma_plan(regions, slots, dirty_bitmap, page, at, y);
}

/// When all memory is written, every byte of a plugged slot goes to its own place in the file, and
/// nothing goes to the place of a byte of a slot that is not plugged.
pub proof fn law_all_bytes_are_in_the_file(
    regions: Seq<GuestRegionMmapExt>,
    steps: Seq<DumpStep>,
    i: int,
    x: int,
)
    requires
        regions_wf(regions),
        regions.len() <= usize::MAX,
        steps == Seq::new(
            memory_slots(regions).len(),
            |k: int| full_step(memory_slots(regions)[k]),
        ),
        0 <= i < regions.len(),
        0 <= x < bits(regions[i].plugged).len() * regions[i].slot_size,
    ensures
        file_source(steps, bytes_before(regions, i) + x) == (if bits(regions[i].plugged)[x
            / regions[i].slot_size as int] {
            Some((i, x))
        } else {
            None
        }),
{
    let r = regions[i];
    assert(r.wf());
    let s = r.slot_size as int;
    let (j, y) = (x / s, x % s);
    lemma_byte_place(r, x);
    lemma_slot_place(r, j);
    lemma_index(regions, regions.len() as int, i, j);
    let slots = memory_slots(regions);
    let at = first_slots(regions, i).len() + j;
    assert(slots[at].slot == r.slot_at(j));
    lemma_full(slots, at, y);
}

/// What is planned for slots when all memory is written.
proof fn lemma_full(slots: Seq<PlacedSlot>, k: int, y: int)
    requires
        0 <= k < slots.len(),
        0 <= y < slots[k].slot.len,
    ensures
        file_source(
            Seq::new(slots.len(), |j: int| full_step(slots[j])),
            slots_len(slots.take(k)) + y,
        ) == (if slots[k].plugged {
            Some((slots[k].region as int, slots[k].slot.offset + y))
        } else {
            None
        }),
    decreases slots.len(),
{
    let steps = Seq::new(slots.len(), |j: int| full_step(slots[j]));
    let sooner = slots.drop_last();
    let before = Seq::new(sooner.len(), |j: int| full_step(sooner[j]));
    assert(steps.drop_last() =~= before);
    crate::vstate::dump::law_dump_spans_all_slots(sooner);
    if k == slots.len() - 1 {
        assert(slots.take(k) =~= sooner);
    } else {
        lemma_full(sooner, k, y);
        assert(sooner.take(k) =~= slots.take(k));
        lemma_before_end(sooner, k, y);
    }
}

/// The pages that changed can be written where the hypervisor gave a bitmap for every plugged slot
/// that has a bit for each of its pages, fills its last word with zeros, and has no word more.
pub proof fn law_fitting_bitmaps_suffice(
    regions: Seq<GuestRegionMmapExt>,
    dirty_bitmap: Map<u32, Vec<u64>>,
    page: int,
)
    requires
        regions_wf(regions),
        regions.len() <= usize::MAX,
        0 < page,
        forall|r: int|
            0 <= r < regions.len() ==> (#[trigger] regions[r]).slot_size as int % page == 0,
        forall|r: int, j: int|
            0 <= r < regions.len() && 0 <= j < bits(regions[r].plugged).len() && #[trigger] bits(
                regions[r].plugged,
            )[j] ==> {
                let slot = (regions[r].slot_from + j) as u32;
                let pages = regions[r].slot_size as int / page;
                &&& dirty_bitmap.contains_key(slot)
                &&& (dirty_bitmap[slot]@.len() - 1) * 64 < pages <= dirty_bitmap[slot]@.len() * 64
                &&& forall|n: int| pages <= n ==> !#[trigger] bit_is_set(dirty_bitmap[slot]@, n)
            },
    ensures
        changed_plan(regions, memory_slots(regions), dirty_bitmap, page).1 is None,
{
    let slots = memory_slots(regions);
    assert forall|k: int| 0 <= k < slots.len() implies changed_steps(
        regions,
        #[trigger] slots[k],
        dirty_bitmap,
        page,
    ).1 is None by {
        lemma_each_slot(regions, regions.len() as int, k);
        let s = slots[k];
        let r = regions[s.region as int];
        assert(r.wf());
        let j = choose|j: int|
            0 <= j < bits(r.plugged).len() && s == #[trigger] region_slots(
                regions,
                s.region as int,
            )[j];
        if s.plugged {
            assert(bits(r.plugged)[j]);
            lemma_fits(r, s, dirty_bitmap[s.slot.slot]@, page);
        }
    }
    lemma_no_error(regions, slots, dirty_bitmap, page);
}

/// A slot with a bitmap that fits is planned without an error.
proof fn lemma_fits(region: GuestRegionMmapExt, s: PlacedSlot, words: Seq<u64>, page: int)
    requires
        0 < page,
        s.slot.len > 0,
        s.slot.len as int % page == 0,
        (words.len() - 1) * 64 < s.slot.len as int / page <= words.len() * 64,
        forall|n: int| s.slot.len as int / page <= n ==> !#[trigger] bit_is_set(words, n),
    ensures
        slot_dump(region, s, words, page).1 is None,
{
    let len = s.slot.len as int;
    let q = len / page;
    vstd::arithmetic::div_mod::lemma_fundamental_div_mod(len, page);
    assert(len == q * page) by (nonlinear_arith)
        requires
            len == page * q + 0,
    ;
    assert((len + page - 1) / page == q) by (nonlinear_arith)
        requires
            len == q * page,
            page > 0,
    ;
    assert(words.len() == bitmap_words(len, page));
    assert(pages_of(len, page, words.len() as int) == q);
    if marks_behind(words, q) {
        let w = words[q / 64];
        let k = (q % 64) as u64;
        assert(forall|m: u64| k <= m < 64 ==> w & (1u64 << m) == 0) by {
            assert forall|m: u64| k <= m < 64 implies w & (1u64 << m) == 0 by {
                let n = q - k + m;
                assert(!bit_is_set(words, n));
                assert(n / 64 == q / 64 && n % 64 == m);
            }
        }
        lemma_no_bits_above(w, k);
    }
}

/// A word without a bit from some position on is nothing once it is shifted down to there.
proof fn lemma_no_bits_above(w: u64, k: u64)
    requires
        k < 64,
        forall|m: u64| k <= m < 64 ==> w & (1u64 << m) == 0,
    ensures
        w >> k == 0,
    decreases 64 - k,
{
    assert(w & (1u64 << k) == 0);
    if k == 63 {
        assert(w & (1u64 << 63) == 0 ==> w >> 63 == 0) by (bit_vector);
    } else {
        lemma_no_bits_above(w, (k + 1) as u64);
        let up = (k + 1) as u64;
        assert(w & (1u64 << k) == 0 && w >> up == 0 && up == k + 1 && k < 63 ==> w >> k == 0)
            by (bit_vector);
    }
}

proof fn lemma_no_error(
    regions: Seq<GuestRegionMmapExt>,
    slots: Seq<PlacedSlot>,
    dirty_bitmap: Map<u32, Vec<u64>>,
    page: int,
)
    requires
        forall|k: int|
            0 <= k < slots.len() ==> changed_steps(
                regions,
                #[trigger] slots[k],
                dirty_bitmap,
                page,
            ).1 is None,
    ensures
        changed_plan(regions, slots, dirty_bitmap, page).1 is None,
    decreases slots.len(),
{
    if slots.len() > 0 {
        assert forall|k: int| 0 <= k < slots.drop_last().len() implies changed_steps(
            regions,
            #[trigger] slots.drop_last()[k],
            dirty_bitmap,
            page,
        ).1 is None by {
            assert(slots[k] == slots.drop_last()[k]);
        }
        lemma_no_error(regions, slots.drop_last(), dirty_bitmap, page);
        assert(slots[slots.len() - 1] == slots.last());
    }
}

proof fn lemma_word_marks(s: PlacedSlot, words: Seq<u64>, page: int, n: int, chunk: RangeChunk)
    requires
        0 <= n <= words.len() * 64,
    ensures
        word_marks(s, words, page, n).contains(chunk) <==> exists|p: int|
            0 <= p < n && #[trigger] bit_is_set(words, p) && chunk == (RangeChunk {
                region: s.region,
                offset: (s.slot.offset + p * page) as u64,
                len: 1,
            }),
    decreases n,
{
    let marks = word_marks(s, words, page, n);
    if n > 0 {
        let before = word_marks(s, words, page, n - 1);
        lemma_word_marks(s, words, page, n - 1, chunk);
        lemma_bit(words[(n - 1) / 64], ((n - 1) % 64) as u64);
        if marks.contains(chunk) {
            let i = choose|i: int| 0 <= i < marks.len() && marks[i] == chunk;
            if i < before.len() {
                assert(before[i] == chunk);
            } else {
                assert(bit_is_set(words, n - 1));
            }
        }
        if before.contains(chunk) {
            let i = choose|i: int| 0 <= i < before.len() && before[i] == chunk;
            assert(marks[i] == chunk);
        }
        if bit_is_set(words, n - 1) {
            assert(marks[before.len() as int] == marks.last());
        }
    }
}

/// The writes that the hypervisor saw are kept for later page by page: a mark is left at the start of
/// a page of a slot exactly when the bit of that page is set.
pub proof fn law_bits_are_kept_page_by_page(
    s: PlacedSlot,
    words: Seq<u64>,
    page: int,
    chunk: RangeChunk,
)
    ensures
        word_marks(s, words, page, words.len() as int * 64).contains(chunk) <==> exists|p: int|
            0 <= p < words.len() * 64 && #[trigger] bit_is_set(words, p) && chunk == (RangeChunk {
                region: s.region,
                offset: (s.slot.offset + p * page) as u64,
                len: 1,
            }),
{
    lemma_word_marks(s, words, page, words.len() as int * 64, chunk);
}

proof fn lemma_stored(
    slots: Seq<PlacedSlot>,
    dirty_bitmap: Map<u32, Vec<u64>>,
    page: int,
    chunk: RangeChunk,
)
    ensures
        stored_marks(slots, dirty_bitmap, page).contains(chunk) <==> exists|k: int|
            0 <= k < slots.len() && (#[trigger] slots[k]).plugged && word_marks(
                slots[k],
                dirty_bitmap[slots[k].slot.slot]@,
                page,
                dirty_bitmap[slots[k].slot.slot]@.len() as int * 64,
            ).contains(chunk),
    decreases slots.len(),
{
    if slots.len() > 0 {
        let front = slots.drop_last();
        lemma_stored(front, dirty_bitmap, page, chunk);
        let a = stored_marks(front, dirty_bitmap, page);
        let words = dirty_bitmap[slots.last().slot.slot]@;
        let b = word_marks(slots.last(), words, page, words.len() as int * 64);
        let all = stored_marks(slots, dirty_bitmap, page);
        if all.contains(chunk) {
            let i = choose|i: int| 0 <= i < all.len() && all[i] == chunk;
            if i < a.len() {
                assert(a[i] == chunk);
                let k = choose|k: int|
                    0 <= k < front.len() && (#[trigger] front[k]).plugged && word_marks(
                        front[k],
                        dirty_bitmap[front[k].slot.slot]@,
                        page,
                        dirty_bitmap[front[k].slot.slot]@.len() as int * 64,
                    ).contains(chunk);
                assert(slots[k] == front[k]);
            } else {
                assert(b[i - a.len()] == chunk);
                assert(slots[slots.len() - 1].plugged);
            }
        }
        if exists|k: int|
            0 <= k < slots.len() && (#[trigger] slots[k]).plugged && word_marks(
                slots[k],
                dirty_bitmap[slots[k].slot.slot]@,
                page,
                dirty_bitmap[slots[k].slot.slot]@.len() as int * 64,
            ).contains(chunk) {
            let k = choose|k: int|
                0 <= k < slots.len() && (#[trigger] slots[k]).plugged && word_marks(
                    slots[k],
                    dirty_bitmap[slots[k].slot.slot]@,
                    page,
                    dirty_bitmap[slots[k].slot.slot]@.len() as int * 64,
                ).contains(chunk);
            if k < front.len() {
                assert(front[k] == slots[k]);
                let i = choose|i: int| 0 <= i < a.len() && a[i] == chunk;
                assert(all[i] == chunk);
            } else {
                let i = choose|i: int| 0 <= i < b.len() && b[i] == chunk;
                assert(all[a.len() + i] == chunk);
            }
        }
    }
}

/// A page that the hypervisor saw written is noted in the region of its slot, so that a later
/// snapshot has it; what was noted before stays noted.
pub proof fn law_seen_writes_are_noted(
    slots: Seq<PlacedSlot>,
    dirty_bitmap: Map<u32, Vec<u64>>,
    page: int,
    before: GuestRegionMmapExt,
    after: GuestRegionMmapExt,
    k: int,
    p: int,
    n: int,
)
    requires
        0 < page,
        0 <= k < slots.len(),
        slots[k].plugged,
        region_marked(
            before,
            after,
            stored_marks(slots, dirty_bitmap, page),
            slots[k].region as int,
        ),
        0 <= p,
        bit_is_set(dirty_bitmap[slots[k].slot.slot]@, p),
        slots[k].slot.offset + p * page <= usize::MAX,
        before.dirty is Some,
        dirty_page(before.dirty->0) > 0,
    ensures
        after.dirty is Some,
        ({
            let at = (slots[k].slot.offset + p * page) / dirty_page(before.dirty->0) as int;
            0 <= at < dirty_bits(before.dirty->0).len() ==> dirty_bits(after.dirty->0)[at]
        }),
        0 <= n < dirty_bits(before.dirty->0).len() && dirty_bits(before.dirty->0)[n]
            ==> dirty_bits(after.dirty->0)[n],
{
    let words = dirty_bitmap[slots[k].slot.slot]@;
    let x = slots[k].slot.offset + p * page;
    let chunk = RangeChunk { region: slots[k].region, offset: x as u64, len: 1 };
    law_bits_are_kept_page_by_page(slots[k], words, page, chunk);
    lemma_stored(slots, dirty_bitmap, page, chunk);
    let chunks = stored_marks(slots, dirty_bitmap, page);
    assert(chunks.contains(chunk)) by {
        assert(bit_is_set(words, p));
        assert(slots[k].plugged);
    }
    let c = choose|c: int| 0 <= c < chunks.len() && chunks[c] == chunk;
    assert(p * page >= 0) by (nonlinear_arith)
        requires
            p >= 0,
            page > 0,
    ;
    let size = dirty_page(before.dirty->0) as int;
    assert(touches(size, x, 1, x / size));
    assert(page_marked(chunks, slots[k].region as int, size, x / size)) by {
        assert(chunks[c].region == slots[k].region);
    }
}

/// After a reset no page of a region is noted as written, and nothing else about it changes.
pub proof fn law_reset_forgets_all_writes(
    before: GuestRegionMmapExt,
    after: GuestRegionMmapExt,
    n: int,
)
    requires
        region_reset(before, after),
    ensures
        before.dirty is Some <==> after.dirty is Some,
        after.dirty matches Some(b) ==> dirty_bits(b).len() == dirty_bits(before.dirty->0).len() && (
        0 <= n < dirty_bits(b).len() ==> !dirty_bits(b)[n]),
        after.start_addr == before.start_addr,
        after.size == before.size,
        after.plugged == before.plugged,
{
}

} // verus!
