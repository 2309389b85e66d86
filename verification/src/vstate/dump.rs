//! Writing guest memory to a file, all of it or the pages that changed.

use std::collections::HashMap;
use vstd::prelude::*;

use crate::vstate::memory::{
    bitmap_dirty_at, bitmap_reset, dirty_at, dirty_bits, dirty_page, GuestMemorySlot,
    GuestRegionMmapExt, MemoryError,
};
use crate::vstate::memory_map::{
    in_some_region, region_marked, regions_wf, GuestMemoryMmap, RangeChunk,
};
use crate::vstate::resources::bits;

verus! {

broadcast use vstd::std_specs::hash::group_hash_axioms;

/// What is done to the file.
#[derive(Debug, Clone, Copy, PartialEq, Eq, Structural)]
pub enum DumpStep {
    /// Bytes of a region are written.
    Write {
        /// Index of the region.
        region: usize,
        /// Offset in the region.
        offset: usize,
        /// Number of bytes.
        len: usize,
    },
    /// The position moves on.
    Skip {
        /// Number of bytes.
        len: usize,
    },
}

/// A slot of a region and whether it is plugged.
#[derive(Debug, Clone, Copy, PartialEq, Eq, Structural)]
pub struct PlacedSlot {
    /// Index of the region.
    pub region: usize,
    /// The slot.
    pub slot: GuestMemorySlot,
    /// Whether it is plugged.
    pub plugged: bool,
}

/// The slots of a region.
pub open spec fn region_slots(regions: Seq<GuestRegionMmapExt>, i: int) -> Seq<PlacedSlot> {
    Seq::new(
        bits(regions[i].plugged).len(),
        |k: int|
            PlacedSlot {
                region: i as usize,
                slot: regions[i].slot_at(k),
                plugged: bits(regions[i].plugged)[k],
            },
    )
}

/// The slots of the first `n` regions.
pub open spec fn first_slots(regions: Seq<GuestRegionMmapExt>, n: int) -> Seq<PlacedSlot>
    decreases n,
{
    if n <= 0 {
        seq![]
    } else {
        first_slots(regions, n - 1) + region_slots(regions, n - 1)
    }
}

/// The slots of guest memory.
pub open spec fn memory_slots(regions: Seq<GuestRegionMmapExt>) -> Seq<PlacedSlot> {
    first_slots(regions, regions.len() as int)
}

/// Whether a slot is one of its region.
pub open spec fn placed(regions: Seq<GuestRegionMmapExt>, s: PlacedSlot) -> bool {
    &&& s.region < regions.len()
    &&& s.slot.offset + s.slot.len <= regions[s.region as int].size
    &&& s.slot.len == regions[s.region as int].slot_size
}

/// What is done for a slot when all memory is written.
pub open spec fn full_step(s: PlacedSlot) -> DumpStep {
    if s.plugged {
        DumpStep::Write { region: s.region, offset: s.slot.offset, len: s.slot.len }
    } else {
        DumpStep::Skip { len: s.slot.len }
    }
}

/// The number of bytes by which the position moves.
pub open spec fn step_len(step: DumpStep) -> int {
    match step {
        DumpStep::Write { len, .. } => len as int,
        DumpStep::Skip { len } => len as int,
    }
}

/// Where a list of steps ends.
pub open spec fn steps_len(steps: Seq<DumpStep>) -> int
    decreases steps.len(),
{
    if steps.len() == 0 {
        0
    } else {
        steps_len(steps.drop_last()) + step_len(steps.last())
    }
}

/// Whether the bitmap of the hypervisor marks a page.
pub open spec fn kvm_dirty(words: Seq<u64>, p: int) -> bool {
    (words[p / 64] >> ((p % 64) as u64)) & 1 != 0
}

/// Whether a page of a slot was written to, by the guest or by the host.
pub open spec fn page_dirty(
    region: GuestRegionMmapExt,
    slot: GuestMemorySlot,
    words: Seq<u64>,
    page: int,
    p: int,
) -> bool {
    kvm_dirty(words, p) || match region.dirty {
        Some(b) => dirty_at(dirty_bits(b), dirty_page(b) as int, slot.offset + p * page),
        None => false,
    }
}

/// The number of words of the bitmap of a slot.
pub open spec fn bitmap_words(len: int, page: int) -> int {
    (len / page + 63) / 64
}

/// The number of pages that are looked at: those that start in the slot and have a bit.
pub open spec fn pages_of(len: int, page: int, words: int) -> int {
    let pages = (len + page - 1) / page;
    if words * 64 <= pages {
        words * 64
    } else {
        pages
    }
}

/// For each page of a slot whether it was written to.
pub open spec fn dirty_flags(
    region: GuestRegionMmapExt,
    slot: GuestMemorySlot,
    words: Seq<u64>,
    page: int,
) -> Seq<bool> {
    Seq::new(
        pages_of(slot.len as int, page, words.len() as int) as nat,
        |p: int| page_dirty(region, slot, words, page, p),
    )
}

/// Writes the runs of dirty pages and skips those between them.
pub open spec fn runs(flags: Seq<bool>, region: usize, base: int, page: int) -> Seq<DumpStep>
    decreases flags.len(),
{
    if flags.len() == 0 {
        seq![]
    } else {
        let before = runs(flags.drop_last(), region, base, page);
        let at = base + (flags.len() - 1) * page;
        if flags.last() {
            if before.len() > 0 && before.last() is Write {
                before.drop_last().push(
                    DumpStep::Write {
                        region,
                        offset: before.last()->Write_offset,
                        len: (before.last()->Write_len + page) as usize,
                    },
                )
            } else {
                before.push(DumpStep::Write { region, offset: at as usize, len: page as usize })
            }
        } else {
            if before.len() > 0 && before.last() is Skip {
                before.drop_last().push(
                    DumpStep::Skip { len: (before.last()->Skip_len + page) as usize },
                )
            } else {
                before.push(DumpStep::Skip { len: page as usize })
            }
        }
    }
}

/// Steps without the last one.
pub open spec fn but_last(steps: Seq<DumpStep>) -> Seq<DumpStep> {
    if steps.len() == 0 {
        steps
    } else {
        steps.drop_last()
    }
}

/// Whether the bitmap marks a page behind those of the slot.
pub open spec fn marks_behind(words: Seq<u64>, pages: int) -> bool {
    pages < words.len() * 64 && words[pages / 64] >> ((pages % 64) as u64) != 0
}

/// What is done for a plugged slot when the pages that changed are written, and what goes wrong
/// afterwards.
pub open spec fn slot_dump(
    region: GuestRegionMmapExt,
    s: PlacedSlot,
    words: Seq<u64>,
    page: int,
) -> (Seq<DumpStep>, Option<MemoryError>) {
    let expected = bitmap_words(s.slot.len as int, page);
    if words.len() > expected {
        (seq![], Some(MemoryError::DirtyBitmapTooLarge))
    } else if words.len() < expected {
        (seq![], Some(MemoryError::DirtyBitmapTooSmall))
    } else {
        let flags = dirty_flags(region, s.slot, words, page);
        let all = runs(flags, s.region, s.slot.offset as int, page);
        if marks_behind(words, flags.len() as int) {
            (but_last(all), Some(MemoryError::DirtyBitmapTooLarge))
        } else if flags.len() > 0 && flags.last() && flags.len() * page > s.slot.len {
            (but_last(all), Some(MemoryError::OutOfBounds))
        } else {
            (all, None)
        }
    }
}

/// What is done for a slot when the pages that changed are written, and what goes wrong
/// afterwards.
pub open spec fn changed_steps(
    regions: Seq<GuestRegionMmapExt>,
    s: PlacedSlot,
    dirty_bitmap: Map<u32, Vec<u64>>,
    page: int,
) -> (Seq<DumpStep>, Option<MemoryError>) {
    if !s.plugged {
        (seq![DumpStep::Skip { len: s.slot.len }], None)
    } else if !dirty_bitmap.contains_key(s.slot.slot) {
        (seq![], Some(MemoryError::DirtyBitmapNotFound(s.slot.slot)))
    } else {
        slot_dump(regions[s.region as int], s, dirty_bitmap[s.slot.slot]@, page)
    }
}

/// What is done for slots when the pages that changed are written, up to the first error.
pub open spec fn changed_plan(
    regions: Seq<GuestRegionMmapExt>,
    slots: Seq<PlacedSlot>,
    dirty_bitmap: Map<u32, Vec<u64>>,
    page: int,
) -> (Seq<DumpStep>, Option<MemoryError>)
    decreases slots.len(),
{
    if slots.len() == 0 {
        (seq![], None)
    } else {
        let before = changed_plan(regions, slots.drop_last(), dirty_bitmap, page);
        if before.1 is Some {
            before
        } else {
            let last = changed_steps(regions, slots.last(), dirty_bitmap, page);
            (before.0 + last.0, last.1)
        }
    }
}

/// The marks for the first `n` pages of a bitmap of the hypervisor.
pub open spec fn word_marks(s: PlacedSlot, words: Seq<u64>, page: int, n: int) -> Seq<RangeChunk>
    decreases n,
{
    if n <= 0 {
        seq![]
    } else {
        let before = word_marks(s, words, page, n - 1);
        if kvm_dirty(words, n - 1) {
            before.push(
                RangeChunk {
                    region: s.region,
                    offset: (s.slot.offset + (n - 1) * page) as u64,
                    len: 1,
                },
            )
        } else {
            before
        }
    }
}

/// The marks for the bitmaps of the hypervisor for all plugged slots.
pub open spec fn stored_marks(
    slots: Seq<PlacedSlot>,
    dirty_bitmap: Map<u32, Vec<u64>>,
    page: int,
) -> Seq<RangeChunk>
    decreases slots.len(),
{
    if slots.len() == 0 {
        seq![]
    } else {
        let before = stored_marks(slots.drop_last(), dirty_bitmap, page);
        let s = slots.last();
        if s.plugged {
            let words = dirty_bitmap[s.slot.slot]@;
            before + word_marks(s, words, page, words.len() as int * 64)
        } else {
            before
        }
    }
}

/// Slots are placed in their regions.
proof fn lemma_slots_placed(regions: Seq<GuestRegionMmapExt>, n: int)
    requires
        regions_wf(regions),
        0 <= n <= regions.len() <= usize::MAX,
    ensures
        forall|k: int|
            0 <= k < first_slots(regions, n).len() ==> placed(
                regions,
                #[trigger] first_slots(regions, n)[k],
            ),
    decreases n,
{
    if n > 0 {
        lemma_slots_placed(regions, n - 1);
        let before = first_slots(regions, n - 1);
        let r = regions[n - 1];
        assert(r.wf());
        assert forall|k: int| 0 <= k < first_slots(regions, n).len() implies placed(
            regions,
            #[trigger] first_slots(regions, n)[k],
        ) by {
            if k < before.len() {
                assert(first_slots(regions, n)[k] == before[k]);
            } else {
                let i = k - before.len();
                let (s, size) = (r.slot_size as int, r.size as int);
                assert(i * s >= 0 && i * s + s <= size) by (nonlinear_arith)
                    requires
                        0 <= i < size / s,
                        s > 0,
                ;
            }
        }
    }
}

/// Every byte of guest memory has its place in the file: all steps together span all slots.
pub proof fn law_dump_spans_all_slots(slots: Seq<PlacedSlot>)
    ensures
        steps_len(Seq::new(slots.len(), |k: int| full_step(slots[k]))) == slots_len(slots),
    decreases slots.len(),
{
    let steps = Seq::new(slots.len(), |k: int| full_step(slots[k]));
    if slots.len() > 0 {
        law_dump_spans_all_slots(slots.drop_last());
        assert(steps.drop_last() =~= Seq::new(
            slots.drop_last().len(),
            |k: int| full_step(slots.drop_last()[k]),
        ));
    }
}

/// The number of bytes of slots.
pub open spec fn slots_len(slots: Seq<PlacedSlot>) -> int
    decreases slots.len(),
{
    if slots.len() == 0 {
        0
    } else {
        slots_len(slots.drop_last()) + slots.last().slot.len
    }
}

/// What is written of a slot keeps its place in the file: the runs span all pages.
pub proof fn law_runs_span_all_pages(flags: Seq<bool>, region: usize, base: int, page: int)
    requires
        0 <= base,
        0 < page,
        flags.len() * page + page <= usize::MAX,
    ensures
        steps_len(runs(flags, region, base, page)) == flags.len() * page,
        forall|k: int|
            0 <= k < runs(flags, region, base, page).len() ==> 0 < step_len(
                #[trigger] runs(flags, region, base, page)[k],
            ) <= flags.len() * page,
        runs(flags, region, base, page).len() > 0 <==> flags.len() > 0,
    decreases flags.len(),
{
    if flags.len() > 0 {
        let n = flags.len() as int;
        assert(n * page == (n - 1) * page + page) by (nonlinear_arith);
        assert((n - 1) * page >= 0) by (nonlinear_arith)
            requires
                n >= 1,
                page > 0,
        ;
        law_runs_span_all_pages(flags.drop_last(), region, base, page);
        let before = runs(flags.drop_last(), region, base, page);
        let all = runs(flags, region, base, page);
        if before.len() > 0 {
            assert(0 < step_len(before.last()) <= (n - 1) * page);
        }
        if all.len() == before.len() + 1 {
            assert(all.drop_last() =~= before);
        } else {
            assert(all.drop_last() =~= before.drop_last());
        }
        assert forall|k: int| 0 <= k < all.len() implies 0 < step_len(#[trigger] all[k]) <= n
            * page by {
            if k < before.len() {
                assert(0 < step_len(before[k]) <= (n - 1) * page);
            }
        }
    }
}

/// The runs alternate, and the last one is of the kind of the last page.
proof fn lemma_last_run(flags: Seq<bool>, region: usize, base: int, page: int)
    requires
        flags.len() > 0,
    ensures
        runs(flags, region, base, page).len() > 0,
        runs(flags, region, base, page).last() is Write <==> flags.last(),
{
}

/// Whether bitmaps are there for all plugged slots, and none reaches past what can be addressed.
pub open spec fn bitmaps_usable(
    slots: Seq<PlacedSlot>,
    dirty_bitmap: Map<u32, Vec<u64>>,
    page: int,
) -> bool {
    forall|k: int|
        0 <= k < slots.len() && (#[trigger] slots[k]).plugged ==> {
            &&& dirty_bitmap.contains_key(slots[k].slot.slot)
            &&& slots[k].slot.offset + dirty_bitmap[slots[k].slot.slot]@.len() * 64 * page
                <= usize::MAX
        }
}

/// Whether `steps` are the runs `now` but for the last one, which is still growing.
pub open spec fn pending(
    now: Seq<DumpStep>,
    steps: Seq<DumpStep>,
    region: usize,
    start: int,
    write_size: int,
    skip_size: int,
) -> bool {
    if write_size > 0 {
        &&& now == steps.push(
            DumpStep::Write { region, offset: start as usize, len: write_size as usize },
        )
    } else if skip_size > 0 {
        &&& now == steps.push(DumpStep::Skip { len: skip_size as usize })
    } else {
        &&& now.len() == 0
        &&& steps.len() == 0
    }
}

impl GuestMemoryMmap {
    /// All slots of guest memory.
    pub fn slots(&self) -> (r: Vec<PlacedSlot>)
        requires
            self.wf(),
        ensures
            r@ == memory_slots(self.regions@),
    {
        let mut all: Vec<PlacedSlot> = Vec::new();
        let mut i: usize = 0;
        while i < self.regions.len()
            invariant
                self.wf(),
                i <= self.regions@.len(),
                all@ == first_slots(self.regions@, i as int),
            decreases self.regions@.len() - i,
        {
            assert(self.regions@[i as int].wf());
            let slots = self.regions[i].slots();
            let ghost before = all@;
            let mut k: usize = 0;
            while k < slots.len()
                invariant
                    i < self.regions@.len(),
                    slots@ == self.regions@[i as int].all_slots(),
                    k <= slots@.len(),
                    all@ == before + region_slots(self.regions@, i as int).take(k as int),
                decreases slots@.len() - k,
            {
                let (slot, plugged) = slots[k];
                all.push(PlacedSlot { region: i, slot, plugged });
                assert(all@ =~= before + region_slots(self.regions@, i as int).take(k + 1));
                k += 1;
            }
            assert(region_slots(self.regions@, i as int).take(k as int) =~= region_slots(
                self.regions@,
                i as int,
            ));
            i += 1;
        }
        all
    }

    /// Plans how all memory is written. Slots that are not plugged are skipped.
    pub fn dump(&self) -> (r: Vec<DumpStep>)
        requires
            self.wf(),
        ensures
            r@ == Seq::new(
                memory_slots(self.regions@).len(),
                |k: int| full_step(memory_slots(self.regions@)[k]),
            ),
    {
        let slots = self.slots();
        let mut steps: Vec<DumpStep> = Vec::new();
        let mut k: usize = 0;
        while k < slots.len()
            invariant
                k <= slots@.len(),
                steps@.len() == k,
                forall|j: int| 0 <= j < k ==> steps@[j] == full_step(#[trigger] slots@[j]),
            decreases slots@.len() - k,
        {
            let s = slots[k];
            steps.push(
                if s.plugged {
                    DumpStep::Write { region: s.region, offset: s.slot.offset, len: s.slot.len }
                } else {
                    DumpStep::Skip { len: s.slot.len }
                },
            );
            k += 1;
        }
        steps
    }

    /// Plans how the pages of a plugged slot that changed are written.
    fn dump_dirty_slot(&self, s: &PlacedSlot, kvm_bitmap: &Vec<u64>, page_size: usize) -> (r: (
        Vec<DumpStep>,
        Option<MemoryError>,
    ))
        requires
            self.wf(),
            placed(self.regions@, *s),
            page_size > 0,
            s.slot.len + 64 * page_size <= usize::MAX,
        ensures
            (r.0@, r.1) == slot_dump(
                self.regions@[s.region as int],
                *s,
                kvm_bitmap@,
                page_size as int,
            ),
    {
        let ghost region = self.regions@[s.region as int];
        let ghost page = page_size as int;
        let ghost len = s.slot.len as int;
        assert(region.wf());
        let mut steps: Vec<DumpStep> = Vec::new();
        let expected: usize = {
            let pages: usize = s.slot.len / page_size;
            assert(pages <= s.slot.len) by (nonlinear_arith)
                requires
                    pages == s.slot.len / page_size,
                    page_size > 0,
            ;
            (pages + 63) / 64
        };
        if kvm_bitmap.len() > expected {
            return (steps, Some(MemoryError::DirtyBitmapTooLarge));
        } else if kvm_bitmap.len() < expected {
            return (steps, Some(MemoryError::DirtyBitmapTooSmall));
        }
        let ghost flags = dirty_flags(region, s.slot, kvm_bitmap@, page);
        let ghost all = runs(flags, s.region, s.slot.offset as int, page);
        let ghost n = flags.len() as int;
        proof {
            lemma_page_bounds(len, page, kvm_bitmap@.len() as int);
        }
        let mut write_size: usize = 0;
        let mut skip_size: usize = 0;
        let mut dirty_batch_start: usize = 0;
        let mut p: usize = 0;
        let mut page_offset: usize = 0;
        let last: usize = kvm_bitmap.len() * 64;
        assert(flags.take(0) =~= Seq::<bool>::empty());
        assert(0 * page == 0) by (nonlinear_arith);
        while p < last
            invariant
                self.wf(),
                placed(self.regions@, *s),
                region == self.regions@[s.region as int],
                region.wf(),
                page == page_size,
                len == s.slot.len,
                page_size > 0,
                s.slot.len + 64 * page_size <= usize::MAX,
                last == kvm_bitmap@.len() * 64,
                kvm_bitmap@.len() == bitmap_words(len, page),
                flags == dirty_flags(region, s.slot, kvm_bitmap@, page),
                all == runs(flags, s.region, s.slot.offset as int, page),
                n == flags.len(),
                n == pages_of(len, page, kvm_bitmap@.len() as int),
                last > 0 ==> last - 64 < n,
                n <= last,
                n * page < len + page,
                forall|q: int| 0 <= q && #[trigger] (q * page) < len && q < last ==> q < n,
                n < last ==> n * page >= len,
                p <= n,
                page_offset == p * page,
                write_size == 0 || skip_size == 0,
                write_size + skip_size <= page_offset,
                dirty_batch_start <= page_offset,
                write_size > 0 ==> dirty_batch_start + write_size == page_offset
                    && dirty_batch_start < len,
                p > 0 ==> write_size + skip_size > 0,
                p == 0 ==> dirty_batch_start == 0,
                pending(
                    runs(flags.take(p as int), s.region, s.slot.offset as int, page),
                    steps@,
                    s.region,
                    s.slot.offset + dirty_batch_start,
                    write_size as int,
                    skip_size as int,
                ),
            ensures
                p == n,
                !marks_behind(kvm_bitmap@, n),
            decreases last - p,
        {
            let ghost now = runs(flags.take(p as int), s.region, s.slot.offset as int, page);
            if page_offset >= s.slot.len {
                assert(p >= n) by (nonlinear_arith)
                    requires
                        p * page >= len,
                        n * page < len + page,
                        page > 0,
                ;
                assert(p / 64 == kvm_bitmap@.len() - 1);
                if kvm_bitmap[p / 64] >> ((p % 64) as u64) != 0 {
                    assert(flags.take(p as int) =~= flags);
                    return (steps, Some(MemoryError::DirtyBitmapTooLarge));
                }
                assert(!marks_behind(kvm_bitmap@, n));
                break ;
            }
            assert(p * page < len);
            assert(p < n);
            let is_kvm_page_dirty: bool = (kvm_bitmap[p / 64] >> ((p % 64) as u64)) & 1 != 0;
            let is_firecracker_page_dirty: bool = match &self.regions[s.region].dirty {
                Some(b) => bitmap_dirty_at(b, s.slot.offset + page_offset),
                None => false,
            };
            assert(flags[p as int] == (is_kvm_page_dirty || is_firecracker_page_dirty));
            proof {
                assert(flags.take(p + 1).drop_last() =~= flags.take(p as int));
                assert((p + 1) * page == p * page + page) by (nonlinear_arith);
                assert((p + 1) * page <= n * page) by (nonlinear_arith)
                    requires
                        p + 1 <= n,
                        page > 0,
                ;
            }
            if is_kvm_page_dirty || is_firecracker_page_dirty {
                if skip_size > 0 {
                    steps.push(DumpStep::Skip { len: skip_size });
                    dirty_batch_start = page_offset;
                    skip_size = 0;
                }
                write_size = write_size + page_size;
            } else {
                if write_size > 0 {
                    steps.push(
                        DumpStep::Write {
                            region: s.region,
                            offset: s.slot.offset + dirty_batch_start,
                            len: write_size,
                        },
                    );
                    write_size = 0;
                }
                skip_size = skip_size + page_size;
            }
            proof {
                let next = runs(flags.take(p + 1), s.region, s.slot.offset as int, page);
                assert(flags.take(p + 1).last() == flags[p as int]);
                assert(flags.take(p + 1).len() == p + 1);
                if flags[p as int] {
                    assert(next =~= steps@.push(
                        DumpStep::Write {
                            region: s.region,
                            offset: (s.slot.offset + dirty_batch_start) as usize,
                            len: write_size,
                        },
                    ));
                } else {
                    assert(next =~= steps@.push(DumpStep::Skip { len: skip_size }));
                }
            }
            p = p + 1;
            page_offset = page_offset + page_size;
        }
        assert(flags.take(p as int) =~= flags);
        proof {
            if n > 0 {
                lemma_last_run(flags, s.region, s.slot.offset as int, page);
                if write_size > 0 {
                    assert(but_last(all) =~= steps@);
                }
            }
        }
        if write_size > 0 {
            if dirty_batch_start + write_size > s.slot.len {
                return (steps, Some(MemoryError::OutOfBounds));
            }
            steps.push(
                DumpStep::Write {
                    region: s.region,
                    offset: s.slot.offset + dirty_batch_start,
                    len: write_size,
                },
            );
        }
        if skip_size > 0 {
            steps.push(DumpStep::Skip { len: skip_size });
        }
        assert(steps@ =~= all);
        (steps, None)
    }

    /// Plans how the pages that changed are written, up to the first error. Slots that are not
    /// plugged are skipped.
    pub fn dump_dirty(&self, dirty_bitmap: &HashMap<u32, Vec<u64>>, page_size: usize) -> (r: (
        Vec<DumpStep>,
        Option<MemoryError>,
    ))
        requires
            self.wf(),
            page_size > 0,
            forall|i: int|
                0 <= i < self.regions@.len() ==> (#[trigger] self.regions@[i]).slot_size + 64
                    * page_size <= usize::MAX,
        ensures
            (r.0@, r.1) == changed_plan(
                self.regions@,
                memory_slots(self.regions@),
                dirty_bitmap@,
                page_size as int,
            ),
    {
        let slots = self.slots();
        let _cnt: usize = self.regions.len();
        proof {
            lemma_slots_placed(self.regions@, self.regions@.len() as int);
        }
        let mut steps: Vec<DumpStep> = Vec::new();
        let mut k: usize = 0;
        assert(slots@.take(0) =~= Seq::<PlacedSlot>::empty());
        while k < slots.len()
            invariant
                self.wf(),
                page_size > 0,
                forall|i: int|
                    0 <= i < self.regions@.len() ==> (#[trigger] self.regions@[i]).slot_size + 64
                        * page_size <= usize::MAX,
                slots@ == memory_slots(self.regions@),
                forall|j: int| 0 <= j < slots@.len() ==> placed(self.regions@, #[trigger] slots@[j]),
                k <= slots@.len(),
                changed_plan(
                    self.regions@,
                    slots@.take(k as int),
                    dirty_bitmap@,
                    page_size as int,
                ) == (steps@, None::<MemoryError>),
            decreases slots@.len() - k,
        {
            let s = slots[k];
            let ghost before = steps@;
            let ghost page = page_size as int;
            proof {
                assert(slots@.take(k + 1).drop_last() =~= slots@.take(k as int));
                assert(slots@.take(k + 1).last() == s);
                assert(placed(self.regions@, slots@[k as int]));
                lemma_stops(self.regions@, slots@, dirty_bitmap@, page, k + 1);
            }
            if !s.plugged {
                steps.push(DumpStep::Skip { len: s.slot.len });
                assert(steps@ =~= before + seq![DumpStep::Skip { len: s.slot.len }]);
            } else {
                match dirty_bitmap.get(&s.slot.slot) {
                    None => {
                        assert(before + Seq::<DumpStep>::empty() =~= before);
                        return (steps, Some(MemoryError::DirtyBitmapNotFound(s.slot.slot)));
                    },
                    Some(kvm_bitmap) => {
                        let (mut more, end) = self.dump_dirty_slot(&s, kvm_bitmap, page_size);
                        let ghost added = more@;
                        steps.append(&mut more);
                        assert(steps@ =~= before + added);
                        if end.is_some() {
                            return (steps, end);
                        }
                    },
                }
            }
            k += 1;
        }
        assert(slots@.take(k as int) =~= slots@);
        (steps, None)
    }

    /// Forgets all recorded writes.
    pub fn reset_dirty(&mut self)
        requires
            old(self).wf(),
        ensures
            final(self).wf(),
            final(self).regions@.len() == old(self).regions@.len(),
            forall|i: int|
                0 <= i < old(self).regions@.len() ==> region_reset(
                    old(self).regions@[i],
                    #[trigger] final(self).regions@[i],
                ),
    {
        let mut i: usize = 0;
        while i < self.regions.len()
            invariant
                i <= self.regions@.len(),
                self.wf(),
                self.regions@.len() == old(self).regions@.len(),
                forall|j: int|
                    0 <= j < i ==> region_reset(old(self).regions@[j], #[trigger] self.regions@[j]),
                forall|j: int|
                    i <= j < self.regions@.len() ==> #[trigger] self.regions@[j] == old(
                        self,
                    ).regions@[j],
            decreases self.regions@.len() - i,
        {
            let ghost before = self.regions@;
            assert(before[i as int].wf());
            let region = &mut self.regions[i];
            if let Some(b) = &mut region.dirty {
                bitmap_reset(b);
            }
            proof {
                assert(region_reset(before[i as int], self.regions@[i as int]));
                assert forall|j: int| 0 <= j < self.regions@.len() implies (
                #[trigger] self.regions@[j]).wf() by {
                    assert(before[j].wf());
                }
                assert forall|a: int, b: int| 0 <= a < b < self.regions@.len() implies (
                #[trigger] self.regions@[a]).start_addr + self.regions@[a].size <= (
                #[trigger] self.regions@[b]).start_addr by {
                    assert(before[a].start_addr + before[a].size <= before[b].start_addr);
                }
            }
            i += 1;
        }
    }

    /// Ends an attempt to dump what was changed. Once all of it was written, no page is marked any
    /// more. Otherwise the writes that the hypervisor saw are recorded, so that a later attempt finds
    /// them.
    pub fn finish_dump_dirty(
        &mut self,
        written: bool,
        dirty_bitmap: &HashMap<u32, Vec<u64>>,
        page_size: usize,
    )
        requires
            old(self).wf(),
            !written ==> page_size > 0 && bitmaps_usable(
                memory_slots(old(self).regions@),
                dirty_bitmap@,
                page_size as int,
            ),
        ensures
            final(self).wf(),
            final(self).regions@.len() == old(self).regions@.len(),
            forall|i: int|
                0 <= i < old(self).regions@.len() ==> if written {
                    region_reset(old(self).regions@[i], #[trigger] final(self).regions@[i])
                } else {
                    region_marked(
                        old(self).regions@[i],
                        final(self).regions@[i],
                        stored_marks(
                            memory_slots(old(self).regions@),
                            dirty_bitmap@,
                            page_size as int,
                        ),
                        i,
                    )
                },
    {
        if written {
            self.reset_dirty();
        } else {
            self.store_dirty_bitmap(dirty_bitmap, page_size);
        }
    }

    /// Records the writes that the hypervisor saw, so that a later attempt finds them.
    pub fn store_dirty_bitmap(&mut self, dirty_bitmap: &HashMap<u32, Vec<u64>>, page_size: usize)
        requires
            old(self).wf(),
            page_size > 0,
            bitmaps_usable(memory_slots(old(self).regions@), dirty_bitmap@, page_size as int),
        ensures
            final(self).wf(),
            final(self).regions@.len() == old(self).regions@.len(),
            forall|i: int|
                0 <= i < old(self).regions@.len() ==> region_marked(
                    old(self).regions@[i],
                    #[trigger] final(self).regions@[i],
                    stored_marks(
                        memory_slots(old(self).regions@),
                        dirty_bitmap@,
                        page_size as int,
                    ),
                    i,
                ),
    {
        let slots = self.slots();
        let _cnt: usize = self.regions.len();
        let ghost page = page_size as int;
        proof {
            lemma_slots_placed(self.regions@, self.regions@.len() as int);
        }
        let mut chunks: Vec<RangeChunk> = Vec::new();
        let mut k: usize = 0;
        assert(slots@.take(0) =~= Seq::<PlacedSlot>::empty());
        while k < slots.len()
            invariant
                page == page_size,
                page_size > 0,
                slots@ == memory_slots(self.regions@),
                bitmaps_usable(slots@, dirty_bitmap@, page),
                forall|j: int| 0 <= j < slots@.len() ==> placed(self.regions@, #[trigger] slots@[j]),
                k <= slots@.len(),
                chunks@ == stored_marks(slots@.take(k as int), dirty_bitmap@, page),
                forall|j: int|
                    0 <= j < chunks@.len() ==> in_some_region(self.regions@, #[trigger] chunks@[j]),
            decreases slots@.len() - k,
        {
            let s = slots[k];
            let ghost before = chunks@;
            proof {
                assert(slots@.take(k + 1).drop_last() =~= slots@.take(k as int));
                assert(placed(self.regions@, slots@[k as int]));
            }
            if s.plugged {
                assert(slots@[k as int].plugged);
                match dirty_bitmap.get(&s.slot.slot) {
                    None => {},
                    Some(words) => {
                        let n: usize = words.len();
                        proof {
                            assert(n * 64 <= n * 64 * page) by (nonlinear_arith)
                                requires
                                    page >= 1,
                                    n >= 0,
                            ;
                            assert(0 * page == 0) by (nonlinear_arith);
                        }
                        let last: usize = n * 64;
                        let mut p: usize = 0;
                        let mut page_offset: usize = 0;
                        assert(before + Seq::<RangeChunk>::empty() =~= before);
                        while p < last
                            invariant
                                page == page_size,
                                p <= last,
                                last == words@.len() * 64,
                                placed(self.regions@, s),
                                page_offset == p * page,
                                s.slot.offset + last * page <= usize::MAX,
                                page > 0,
                                chunks@ == before + word_marks(s, words@, page, p as int),
                                forall|j: int|
                                    0 <= j < chunks@.len() ==> in_some_region(
                                        self.regions@,
                                        #[trigger] chunks@[j],
                                    ),
                            decreases last - p,
                        {
                            let ghost so_far = chunks@;
                            proof {
                                assert((p + 1) * page == p * page + page) by (nonlinear_arith);
                                assert((p + 1) * page <= last * page) by (nonlinear_arith)
                                    requires
                                        p + 1 <= last,
                                        page > 0,
                                ;
                            }
                            if (words[p / 64] >> ((p % 64) as u64)) & 1 != 0 {
                                chunks.push(
                                    RangeChunk {
                                        region: s.region,
                                        offset: (s.slot.offset + page_offset) as u64,
                                        len: 1,
                                    },
                                );
                            }
                            assert(chunks@ =~= before + word_marks(s, words@, page, p + 1));
                            p = p + 1;
                            page_offset = page_offset + page_size;
                        }
                    },
                }
            }
            k += 1;
        }
        assert(slots@.take(k as int) =~= slots@);
        self.mark_chunks(&chunks);
    }
}

/// Whether `after` is a region `before` without recorded writes.
pub open spec fn region_reset(before: GuestRegionMmapExt, after: GuestRegionMmapExt) -> bool {
    &&& after == (GuestRegionMmapExt { dirty: after.dirty, ..before })
    &&& match before.dirty {
        None => after.dirty is None,
        Some(b) => {
            &&& after.dirty is Some
            &&& dirty_page(after.dirty->Some_0) == dirty_page(b)
            &&& dirty_bits(after.dirty->Some_0) == Seq::new(dirty_bits(b).len(), |n: int| false)
        },
    }
}

/// Where the pages of a slot end.
proof fn lemma_page_bounds(len: int, page: int, words: int)
    requires
        0 <= len,
        0 < page,
        words == bitmap_words(len, page),
    ensures
        0 <= pages_of(len, page, words) <= words * 64,
        words > 0 ==> words * 64 - 64 < pages_of(len, page, words),
        pages_of(len, page, words) * page < len + page,
        pages_of(len, page, words) < words * 64 ==> pages_of(len, page, words) * page >= len,
        forall|q: int|
            0 <= q && #[trigger] (q * page) < len && q < words * 64 ==> q < pages_of(
                len,
                page,
                words,
            ),
{
    let whole = len / page;
    let pages = (len + page - 1) / page;
    let n = pages_of(len, page, words);
    vstd::arithmetic::div_mod::lemma_fundamental_div_mod(len, page);
    vstd::arithmetic::div_mod::lemma_fundamental_div_mod(len + page - 1, page);
    assert(whole >= 0 && pages >= whole && pages * page < len + page && pages * page >= len)
        by (nonlinear_arith)
        requires
            0 <= len,
            0 < page,
            len == page * whole + len % page,
            0 <= len % page < page,
            len + page - 1 == page * pages + (len + page - 1) % page,
            0 <= (len + page - 1) % page < page,
    ;
    assert(n * page < len + page) by (nonlinear_arith)
        requires
            n <= pages,
            pages * page < len + page,
            page > 0,
    ;
    assert forall|q: int|
        0 <= q && #[trigger] (q * page) < len && q < words * 64 implies q < n by {
        assert(q < pages) by (nonlinear_arith)
            requires
                q * page < len,
                len <= pages * page,
                page > 0,
        ;
    }
}

/// An error ends the plan.
proof fn lemma_stops(
    regions: Seq<GuestRegionMmapExt>,
    slots: Seq<PlacedSlot>,
    dirty_bitmap: Map<u32, Vec<u64>>,
    page: int,
    k: int,
)
    requires
        0 <= k <= slots.len(),
    ensures
        changed_plan(regions, slots.take(k), dirty_bitmap, page).1 is Some ==> changed_plan(
            regions,
            slots,
            dirty_bitmap,
            page,
        ) == changed_plan(regions, slots.take(k), dirty_bitmap, page),
    decreases slots.len(),
{
    if k < slots.len() {
        lemma_stops(regions, slots.drop_last(), dirty_bitmap, page, k);
        assert(slots.drop_last().take(k) =~= slots.take(k));
    } else {
        assert(slots.take(k) =~= slots);
    }
}

} // verus!
