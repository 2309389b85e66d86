//! All regions of guest memory, ranges across them, and the mappings that they are made from.

use vm_memory::bitmap::AtomicBitmap;
use vstd::prelude::*;

use crate::vstate::memory::{
    bitmap_mark, bitmap_with_len, clean_bits, dirty_bits, dirty_page, touches, GuestMemoryError,
    GuestMemoryState,
    GuestRegionMmapExt, MemoryError, MAP_ANONYMOUS, MAP_NORESERVE, MAP_PRIVATE, MAP_SHARED,
};

verus! {

/// The regions of guest memory, in the order of their addresses.
#[derive(Debug)]
pub struct GuestMemoryMmap {
    /// The regions.
    pub regions: Vec<GuestRegionMmapExt>,
}

/// A part of a region.
#[derive(Debug, Clone, Copy, PartialEq, Eq, Structural)]
pub struct RangeChunk {
    /// Index of the region.
    pub region: usize,
    /// Offset in the region.
    pub offset: u64,
    /// Number of bytes.
    pub len: usize,
}

/// Whether regions are well formed, in the order of their addresses and apart.
pub open spec fn regions_wf(regions: Seq<GuestRegionMmapExt>) -> bool {
    &&& forall|i: int| 0 <= i < regions.len() ==> (#[trigger] regions[i]).wf()
    &&& forall|i: int, j: int|
        0 <= i < j < regions.len() ==> (#[trigger] regions[i]).start_addr + regions[i].size <= (
        #[trigger] regions[j]).start_addr
}

/// The index of the region that an address is in.
pub open spec fn region_of(regions: Seq<GuestRegionMmapExt>, addr: int) -> Option<int> {
    if exists|i: int| 0 <= i < regions.len() && (#[trigger] regions[i]).covers(addr) {
        Some(choose|i: int| 0 <= i < regions.len() && (#[trigger] regions[i]).covers(addr))
    } else {
        None
    }
}

/// The smaller of two numbers.
pub open spec fn smaller(a: int, b: int) -> int {
    if a <= b {
        a
    } else {
        b
    }
}

/// The parts of regions that a range of addresses consists of, and whether there is a region for
/// all of it. A range that no region follows ends there.
pub open spec fn walk(regions: Seq<GuestRegionMmapExt>, cur: int, remaining: int) -> (
    Seq<RangeChunk>,
    Option<GuestMemoryError>,
)
    decreases remaining,
{
    match region_of(regions, cur) {
        None => (seq![], Some(GuestMemoryError::InvalidGuestAddress(cur as u64))),
        Some(i) => {
            let offset = cur - regions[i].start_addr;
            let len = smaller(regions[i].size - offset, remaining);
            let chunk = RangeChunk { region: i as usize, offset: offset as u64, len: len as usize };
            if len >= remaining || len <= 0 {
                (seq![chunk], None)
            } else {
                let rest = walk(regions, cur + len, remaining - len);
                (seq![chunk] + rest.0, rest.1)
            }
        },
    }
}

/// An address is in at most one region.
pub proof fn lemma_region_of(regions: Seq<GuestRegionMmapExt>, i: int, addr: int)
    requires
        regions_wf(regions),
        0 <= i < regions.len(),
        regions[i].covers(addr),
    ensures
        region_of(regions, addr) == Some(i),
{
    let j = choose|j: int| 0 <= j < regions.len() && (#[trigger] regions[j]).covers(addr);
    assert(i == j);
}

/// The parts of a range lie in their regions.
pub proof fn lemma_walk_inside(regions: Seq<GuestRegionMmapExt>, cur: int, remaining: int)
    requires
        regions_wf(regions),
        regions.len() <= usize::MAX,
        0 <= cur,
        0 <= remaining,
    ensures
        forall|k: int|
            0 <= k < walk(regions, cur, remaining).0.len() ==> inside(
                regions,
                #[trigger] walk(regions, cur, remaining).0[k],
            ),
    decreases remaining,
{
    match region_of(regions, cur) {
        None => {},
        Some(i) => {
            let offset = cur - regions[i].start_addr;
            let len = smaller(regions[i].size - offset, remaining);
            assert(regions[i].covers(cur));
            if len < remaining && len > 0 {
                lemma_walk_inside(regions, cur + len, remaining - len);
                let rest = walk(regions, cur + len, remaining - len).0;
                assert forall|k: int|
                    0 <= k < walk(regions, cur, remaining).0.len() implies inside(
                    regions,
                    #[trigger] walk(regions, cur, remaining).0[k],
                ) by {
                    if k > 0 {
                        assert(walk(regions, cur, remaining).0[k] == rest[k - 1]);
                    }
                }
            }
        },
    }
}

/// Whether a part lies in its region.
pub open spec fn inside(regions: Seq<GuestRegionMmapExt>, chunk: RangeChunk) -> bool {
    &&& chunk.region < regions.len()
    &&& chunk.offset + chunk.len <= regions[chunk.region as int].size
}

/// Whether the region of a part exists.
pub open spec fn in_some_region(regions: Seq<GuestRegionMmapExt>, chunk: RangeChunk) -> bool {
    chunk.region < regions.len() && chunk.offset <= usize::MAX
}

/// There is a region for all of a range exactly if each of its addresses is in a region.
pub proof fn law_range_has_regions(regions: Seq<GuestRegionMmapExt>, addr: int, len: int)
    requires
        regions_wf(regions),
        0 <= addr,
        0 < len,
    ensures
        walk(regions, addr, len).1 is None <==> forall|a: int|
            addr <= a < addr + len ==> (#[trigger] region_of(regions, a)) is Some,
    decreases len,
{
    match region_of(regions, addr) {
        None => {},
        Some(i) => {
            let n = smaller(regions[i].size - (addr - regions[i].start_addr), len);
            assert(regions[i].covers(addr));
            assert forall|a: int| addr <= a < addr + n implies (#[trigger] region_of(regions, a))
                is Some by {
                lemma_region_of(regions, i, a);
            }
            if n < len {
                law_range_has_regions(regions, addr + n, len - n);
            }
        },
    }
}

/// The mappings that guest memory is made from.
#[derive(Debug, Clone, Copy, PartialEq, Eq, Structural)]
pub struct MmapRequest {
    /// Guest address of the first byte.
    pub start: u64,
    /// Number of bytes.
    pub size: usize,
    /// Flags of the mapping.
    pub flags: i32,
    /// Offset in the file, if there is one.
    pub file_offset: Option<u64>,
    /// Whether writes are recorded.
    pub track_dirty_pages: bool,
}

impl MmapRequest {
    /// The record of dirty pages that goes with the mapping, if there is one: no page is dirty yet.
    pub fn dirty_bitmap(&self) -> (r: Option<AtomicBitmap>)
        ensures
            r is Some <==> self.track_dirty_pages,
            r matches Some(b) ==> dirty_page(b) > 0 && dirty_bits(b) == clean_bits(
                self.size as int,
                dirty_page(b) as int,
            ),
    {
        if self.track_dirty_pages {
            Some(bitmap_with_len(self.size))
        } else {
            None
        }
    }
}

/// The mappings for regions, the first of which starts at an offset in the file, and what goes
/// wrong after them.
pub open spec fn mappings(
    regions: Seq<(u64, usize)>,
    flags: i32,
    file: bool,
    track_dirty_pages: bool,
    offset: int,
) -> (Seq<MmapRequest>, Option<MemoryError>)
    decreases regions.len(),
{
    if regions.len() == 0 {
        (seq![], None)
    } else {
        let (start, size) = regions[0];
        let request = MmapRequest {
            start,
            size,
            flags,
            file_offset: if file {
                Some(offset as u64)
            } else {
                None
            },
            track_dirty_pages,
        };
        if offset + size >= i64::MAX {
            (seq![], Some(MemoryError::OffsetTooLarge))
        } else if start + size > u64::MAX {
            (seq![request], Some(MemoryError::VmMemoryError))
        } else {
            let rest = mappings(regions.skip(1), flags, file, track_dirty_pages, offset + size);
            (seq![request] + rest.0, rest.1)
        }
    }
}

/// The number of bytes of all regions.
pub open spec fn total_size(regions: Seq<(u64, usize)>) -> int
    decreases regions.len(),
{
    if regions.len() == 0 {
        0
    } else {
        regions[0].1 + total_size(regions.skip(1))
    }
}

/// Plans the mappings for regions, and says what goes wrong after they were made.
pub fn create(
    regions: &Vec<(u64, usize)>,
    mmap_flags: i32,
    file: bool,
    track_dirty_pages: bool,
) -> (r: (Vec<MmapRequest>, Option<MemoryError>))
    ensures
        (r.0@, r.1) == mappings(
            regions@,
            MAP_NORESERVE | mmap_flags,
            file,
            track_dirty_pages,
            0,
        ),
{
    let flags: i32 = MAP_NORESERVE | mmap_flags;
    let mut requests: Vec<MmapRequest> = Vec::new();
    let mut offset: u64 = 0;
    let mut i: usize = 0;
    let ghost whole = mappings(regions@, flags, file, track_dirty_pages, 0);
    assert(regions@.skip(0) =~= regions@);
    assert(requests@ + whole.0 =~= whole.0);
    while i < regions.len()
        invariant
            i <= regions@.len(),
            flags == MAP_NORESERVE | mmap_flags,
            whole == mappings(regions@, flags, file, track_dirty_pages, 0),
            offset < i64::MAX,
            ({
                let rest = mappings(
                    regions@.skip(i as int),
                    flags,
                    file,
                    track_dirty_pages,
                    offset as int,
                );
                &&& whole.0 == requests@ + rest.0
                &&& whole.1 == rest.1
            }),
        decreases regions@.len() - i,
    {
        let (start, size) = regions[i];
        let ghost before = requests@;
        let ghost rest = mappings(
            regions@.skip(i as int),
            flags,
            file,
            track_dirty_pages,
            offset as int,
        );
        proof {
            assert(regions@.skip(i as int)[0] == regions@[i as int]);
            assert(regions@.skip(i as int).skip(1) =~= regions@.skip(i + 1));
        }
        let file_offset: Option<u64> = if file {
            Some(offset)
        } else {
            None
        };
        offset = match offset.checked_add(size as u64) {
            None => {
                assert(requests@ =~= whole.0);
                return (requests, Some(MemoryError::OffsetTooLarge));
            },
            Some(end) => end,
        };
        if offset >= i64::MAX as u64 {
            assert(requests@ =~= whole.0);
            return (requests, Some(MemoryError::OffsetTooLarge));
        }
        requests.push(MmapRequest { start, size, flags, file_offset, track_dirty_pages });
        if start.checked_add(size as u64).is_none() {
            assert(requests@ =~= whole.0);
            return (requests, Some(MemoryError::VmMemoryError));
        }
        proof {
            let next = mappings(
                regions@.skip(i + 1),
                flags,
                file,
                track_dirty_pages,
                offset as int,
            );
            assert(whole.0 =~= requests@ + next.0);
        }
        i += 1;
    }
    assert(requests@ =~= whole.0);
    (requests, None)
}

/// The size of the file behind regions, and the plan for their mappings, which share what is
/// written with others who map the file.
pub fn memfd_backed(regions: &Vec<(u64, usize)>, track_dirty_pages: bool, huge_page_flags: i32) -> (r:
    (u64, (Vec<MmapRequest>, Option<MemoryError>)))
    requires
        total_size(regions@) <= u64::MAX,
    ensures
        r.0 == total_size(regions@),
        (r.1.0@, r.1.1) == mappings(
            regions@,
            MAP_NORESERVE | (MAP_SHARED | huge_page_flags),
            true,
            track_dirty_pages,
            0,
        ),
{
    let mut size: u64 = 0;
    let mut i: usize = 0;
    assert(regions@.skip(0) =~= regions@);
    while i < regions.len()
        invariant
            i <= regions@.len(),
            total_size(regions@) <= u64::MAX,
            size + total_size(regions@.skip(i as int)) == total_size(regions@),
        decreases regions@.len() - i,
    {
        proof {
            assert(regions@.skip(i as int)[0] == regions@[i as int]);
            assert(regions@.skip(i as int).skip(1) =~= regions@.skip(i + 1));
            lemma_total_size(regions@.skip(i + 1));
        }
        size = size + regions[i].1 as u64;
        i += 1;
    }
    (size, create(regions, MAP_SHARED | huge_page_flags, true, track_dirty_pages))
}

/// Plans the mappings for regions without a file.
pub fn anonymous(regions: &Vec<(u64, usize)>, track_dirty_pages: bool, huge_page_flags: i32) -> (r: (
    Vec<MmapRequest>,
    Option<MemoryError>,
))
    ensures
        (r.0@, r.1) == mappings(
            regions@,
            MAP_NORESERVE | (MAP_PRIVATE | MAP_ANONYMOUS | huge_page_flags),
            false,
            track_dirty_pages,
            0,
        ),
{
    create(regions, MAP_PRIVATE | MAP_ANONYMOUS | huge_page_flags, false, track_dirty_pages)
}

/// Plans the mappings for regions whose contents are in a file. None of them reaches past the end
/// of the file, where accesses would fail.
pub fn snapshot_file(
    regions: &Vec<(u64, usize)>,
    file_size: Option<u64>,
    track_dirty_pages: bool,
) -> (r: Result<(Vec<MmapRequest>, Option<MemoryError>), MemoryError>)
    ensures
        total_size(regions@) > u64::MAX ==> r is Err && r->Err_0 == MemoryError::OffsetTooLarge,
        total_size(regions@) <= u64::MAX ==> match file_size {
            None => r is Err && r->Err_0 == MemoryError::FileMetadata,
            Some(size) => if total_size(regions@) > size {
                r is Err && r->Err_0 == MemoryError::OffsetTooLarge
            } else {
                &&& r is Ok
                &&& (r->Ok_0.0@, r->Ok_0.1) == mappings(
                    regions@,
                    MAP_NORESERVE | MAP_PRIVATE,
                    true,
                    track_dirty_pages,
                    0,
                )
            },
        },
{
    let mut memory_size: u64 = 0;
    let mut i: usize = 0;
    assert(regions@.skip(0) =~= regions@);
    while i < regions.len()
        invariant
            i <= regions@.len(),
            memory_size + total_size(regions@.skip(i as int)) == total_size(regions@),
        decreases regions@.len() - i,
    {
        proof {
            assert(regions@.skip(i as int)[0] == regions@[i as int]);
            assert(regions@.skip(i as int).skip(1) =~= regions@.skip(i + 1));
            lemma_total_size(regions@.skip(i + 1));
        }
        memory_size = match memory_size.checked_add(regions[i].1 as u64) {
            Some(sum) => sum,
            None => {
                return Err(MemoryError::OffsetTooLarge);
            },
        };
        i += 1;
    }
    let file_size: u64 = match file_size {
        Some(size) => size,
        None => {
            return Err(MemoryError::FileMetadata);
        },
    };
    if memory_size > file_size {
        return Err(MemoryError::OffsetTooLarge);
    }
    Ok(create(regions, MAP_PRIVATE, true, track_dirty_pages))
}

/// Sizes are not negative.
proof fn lemma_total_size(regions: Seq<(u64, usize)>)
    ensures
        total_size(regions) >= 0,
    decreases regions.len(),
{
    if regions.len() > 0 {
        lemma_total_size(regions.skip(1));
    }
}

/// The regions follow each other in the file without gap or overlap.
pub proof fn law_regions_follow_in_file(
    regions: Seq<(u64, usize)>,
    flags: i32,
    track_dirty_pages: bool,
    offset: int,
    i: int,
)
    requires
        0 <= offset < i64::MAX,
        0 <= i < mappings(regions, flags, true, track_dirty_pages, offset).0.len(),
    ensures
        i < regions.len(),
        mappings(regions, flags, true, track_dirty_pages, offset).0[i].size == regions[i].1,
        mappings(regions, flags, true, track_dirty_pages, offset).0[i].file_offset == Some(
            (offset + total_size(regions.take(i))) as u64,
        ),
        offset + total_size(regions.take(i)) + regions[i].1 < i64::MAX,
    decreases regions.len(),
{
    let (start, size) = regions[0];
    if i > 0 {
        law_regions_follow_in_file(regions.skip(1), flags, track_dirty_pages, offset + size, i - 1);
        assert(regions.take(i).skip(1) =~= regions.skip(1).take(i - 1));
    } else {
        assert(regions.take(0).len() == 0);
    }
}

/// How the memory behind a range is given back to the host.
#[derive(Debug, Clone, Copy, PartialEq, Eq, Structural)]
pub enum DiscardMethod {
    /// A fresh anonymous mapping is laid over it, so that the file behind it does not show through.
    MapAnonymous,
    /// The host is told that it is not needed.
    Advise,
}

/// Chooses how memory is given back, by whether its mapping has a file and is private.
pub fn discard_method(file: bool, mmap_flags: i32) -> (r: DiscardMethod)
    ensures
        r == (if file && mmap_flags & MAP_PRIVATE != 0 {
            DiscardMethod::MapAnonymous
        } else {
            DiscardMethod::Advise
        }),
{
    if file && mmap_flags & MAP_PRIVATE != 0 {
        DiscardMethod::MapAnonymous
    } else {
        DiscardMethod::Advise
    }
}

/// Whether some part marks a page of a region.
pub open spec fn page_marked(chunks: Seq<RangeChunk>, region: int, page: int, n: int) -> bool {
    exists|k: int|
        0 <= k < chunks.len() && (#[trigger] chunks[k]).region == region && touches(
            page,
            chunks[k].offset as int,
            chunks[k].len as int,
            n,
        )
}

/// Whether `after` is a region `before` with the pages marked that parts touch.
pub open spec fn region_marked(
    before: GuestRegionMmapExt,
    after: GuestRegionMmapExt,
    chunks: Seq<RangeChunk>,
    region: int,
) -> bool {
    &&& after == (GuestRegionMmapExt { dirty: after.dirty, ..before })
    &&& match before.dirty {
        None => after.dirty is None,
        Some(b) => {
            &&& after.dirty is Some
            &&& dirty_page(after.dirty->Some_0) == dirty_page(b)
            &&& dirty_bits(after.dirty->Some_0) == Seq::new(
                dirty_bits(b).len(),
                |n: int|
                    dirty_bits(b)[n] || page_marked(chunks, region, dirty_page(b) as int, n),
            )
        },
    }
}

impl GuestMemoryMmap {
    /// The regions are well formed, in the order of their addresses and apart.
    pub open spec fn wf(self) -> bool {
        regions_wf(self.regions@)
    }

    /// The index of the region that an address is in.
    pub fn find_region(&self, addr: u64) -> (r: Option<usize>)
        requires
            self.wf(),
        ensures
            match region_of(self.regions@, addr as int) {
                Some(i) => r is Some && r->Some_0 == i,
                None => r is None,
            },
    {
        let mut i: usize = 0;
        while i < self.regions.len()
            invariant
                self.wf(),
                i <= self.regions@.len(),
                forall|j: int|
                    0 <= j < i ==> !(#[trigger] self.regions@[j]).covers(addr as int),
            decreases self.regions@.len() - i,
        {
            let region = &self.regions[i];
            assert(self.regions@[i as int].wf());
            if region.start_addr <= addr && addr < region.start_addr + region.size as u64 {
                proof {
                    lemma_region_of(self.regions@, i as int, addr as int);
                }
                return Some(i);
            }
            i += 1;
        }
        None
    }

    /// The parts of regions that a range of addresses consists of, in order, and what is wrong
    /// with the range behind the last one.
    pub fn try_for_each_region_in_range(&self, addr: u64, range_len: usize) -> (r: (
        Vec<RangeChunk>,
        Result<(), GuestMemoryError>,
    ))
        requires
            self.wf(),
        ensures
            r.0@ == walk(self.regions@, addr as int, range_len as int).0,
            match walk(self.regions@, addr as int, range_len as int).1 {
                None => r.1 is Ok,
                Some(e) => r.1 is Err && r.1->Err_0 == e,
            },
    {
        let mut chunks: Vec<RangeChunk> = Vec::new();
        let mut cur: u64 = addr;
        let mut remaining: usize = range_len;
        let ghost whole = walk(self.regions@, addr as int, range_len as int);
        assert(chunks@ + whole.0 =~= whole.0);
        loop
            invariant
                self.wf(),
                whole == walk(self.regions@, addr as int, range_len as int),
                whole.0 == chunks@ + walk(self.regions@, cur as int, remaining as int).0,
                whole.1 == walk(self.regions@, cur as int, remaining as int).1,
            decreases remaining,
        {
            let i: usize = match self.find_region(cur) {
                Some(i) => i,
                None => {
                    assert(chunks@ =~= whole.0);
                    return (chunks, Err(GuestMemoryError::InvalidGuestAddress(cur)));
                },
            };
            let ghost before = chunks@;
            let ghost rest = walk(self.regions@, cur as int, remaining as int).0;
            let region = &self.regions[i];
            assert(self.regions@[i as int].covers(cur as int));
            assert(self.regions@[i as int].wf());
            let start: u64 = cur - region.start_addr;
            let left: usize = region.size - start as usize;
            let len: usize = if left <= remaining {
                left
            } else {
                remaining
            };
            chunks.push(RangeChunk { region: i, offset: start, len });
            if len == remaining {
                assert(chunks@ =~= whole.0);
                return (chunks, Ok(()));
            }
            proof {
                let next = walk(self.regions@, cur + len, remaining - len);
                assert(rest =~= seq![chunks@.last()] + next.0);
                assert(whole.0 =~= chunks@ + next.0);
            }
            remaining = remaining - len;
            cur = cur + len as u64;
        }
    }

    /// Whether a range lies in plugged memory.
    pub fn check_range_plugged(&self, addr: u64, len: usize) -> (r: Result<(), GuestMemoryError>)
        requires
            self.wf(),
        ensures
            ({
                let (chunks, end) = walk(self.regions@, addr as int, len as int);
                if self.crosses_gap(chunks) {
                    r is Err && r->Err_0 == GuestMemoryError::HostAddressNotAvailable
                } else {
                    match end {
                        None => r is Ok,
                        Some(e) => r is Err && r->Err_0 == e,
                    }
                }
            }),
    {
        let (chunks, end) = self.try_for_each_region_in_range(addr, len);
        let _cnt: usize = self.regions.len();
        proof {
            lemma_walk_inside(self.regions@, addr as int, len as int);
        }
        let mut k: usize = 0;
        while k < chunks.len()
            invariant
                self.wf(),
                k <= chunks@.len(),
                forall|j: int| 0 <= j < chunks@.len() ==> inside(self.regions@, #[trigger] chunks@[j]),
                forall|j: int| 0 <= j < k ==> !self.chunk_has_gap(#[trigger] chunks@[j]),
                chunks@ == walk(self.regions@, addr as int, len as int).0,
            decreases chunks@.len() - k,
        {
            let chunk = chunks[k];
            assert(inside(self.regions@, chunks@[k as int]));
            assert(self.regions@[chunk.region as int].wf());
            match self.regions[chunk.region].check_range_plugged(chunk.offset, chunk.len) {
                Ok(_) => {},
                Err(e) => {
                    assert(self.chunk_has_gap(chunks@[k as int]));
                    return Err(e);
                },
            }
            k += 1;
        }
        end
    }

    /// Whether a part of a region meets a slot that is not plugged.
    pub open spec fn chunk_has_gap(self, chunk: RangeChunk) -> bool {
        let region = self.regions@[chunk.region as int];
        region.has_gap(region.start_addr + chunk.offset, chunk.len as int)
    }

    /// Whether some part meets a slot that is not plugged.
    pub open spec fn crosses_gap(self, chunks: Seq<RangeChunk>) -> bool {
        exists|k: int| 0 <= k < chunks.len() && self.chunk_has_gap(#[trigger] chunks[k])
    }

    /// Records writes to a range. What is outside of guest memory is left out.
    pub fn mark_dirty(&mut self, addr: u64, len: usize)
        requires
            old(self).wf(),
        ensures
            final(self).wf(),
            final(self).regions@.len() == old(self).regions@.len(),
            forall|i: int|
                0 <= i < old(self).regions@.len() ==> region_marked(
                    old(self).regions@[i],
                    #[trigger] final(self).regions@[i],
                    walk(old(self).regions@, addr as int, len as int).0,
                    i,
                ),
    {
        let (chunks, _) = self.try_for_each_region_in_range(addr, len);
        let _cnt: usize = self.regions.len();
        proof {
            lemma_walk_inside(self.regions@, addr as int, len as int);
            assert forall|j: int| 0 <= j < chunks@.len() implies in_some_region(
                self.regions@,
                #[trigger] chunks@[j],
            ) by {
                assert(inside(self.regions@, chunks@[j]));
            }
        }
        self.mark_chunks(&chunks);
    }

    /// Records writes to parts of regions.
    pub fn mark_chunks(&mut self, chunks: &Vec<RangeChunk>)
        requires
            old(self).wf(),
            forall|j: int|
                0 <= j < chunks@.len() ==> in_some_region(old(self).regions@, #[trigger] chunks@[j]),
        ensures
            final(self).wf(),
            final(self).regions@.len() == old(self).regions@.len(),
            forall|i: int|
                0 <= i < old(self).regions@.len() ==> region_marked(
                    old(self).regions@[i],
                    #[trigger] final(self).regions@[i],
                    chunks@,
                    i,
                ),
    {
        proof {
            assert forall|i: int| 0 <= i < old(self).regions@.len() implies region_marked(
                old(self).regions@[i],
                #[trigger] self.regions@[i],
                chunks@.take(0),
                i,
            ) by {
                if let Some(b) = self.regions@[i].dirty {
                    assert(dirty_bits(b) =~= Seq::new(
                        dirty_bits(b).len(),
                        |n: int|
                            dirty_bits(b)[n] || page_marked(
                                chunks@.take(0),
                                i,
                                dirty_page(b) as int,
                                n,
                            ),
                    ));
                }
            }
        }
        let mut k: usize = 0;
        while k < chunks.len()
            invariant
                k <= chunks@.len(),
                old(self).wf(),
                self.wf(),
                self.regions@.len() == old(self).regions@.len(),
                forall|j: int|
                    0 <= j < chunks@.len() ==> in_some_region(old(self).regions@, #[trigger] chunks@[j]),
                forall|i: int|
                    0 <= i < old(self).regions@.len() ==> region_marked(
                        old(self).regions@[i],
                        #[trigger] self.regions@[i],
                        chunks@.take(k as int),
                        i,
                    ),
            decreases chunks@.len() - k,
        {
            let chunk = chunks[k];
            let ghost before = self.regions@;
            let ghost at = chunk.region as int;
            assert(in_some_region(old(self).regions@, chunks@[k as int]));
            assert(old(self).regions@[at].wf());
            assert(before[at].wf());
            assert(region_marked(old(self).regions@[at], before[at], chunks@.take(k as int), at));
            let region = &mut self.regions[chunk.region];
            if let Some(b) = &mut region.dirty {
                bitmap_mark(b, chunk.offset as usize, chunk.len);
            }
            proof {
                let (done, more) = (chunks@.take(k as int), chunks@.take(k + 1));
                assert(more == done.push(chunk));
                assert forall|i: int| 0 <= i < old(self).regions@.len() implies region_marked(
                    old(self).regions@[i],
                    #[trigger] self.regions@[i],
                    more,
                    i,
                ) by {
                    assert(region_marked(old(self).regions@[i], before[i], done, i));
                    if let Some(b) = old(self).regions@[i].dirty {
                        let page = dirty_page(b) as int;
                        assert forall|n: int| #[trigger]
                            page_marked(more, i, page, n) == (page_marked(done, i, page, n) || (
                            chunk.region == i && touches(
                                page,
                                chunk.offset as int,
                                chunk.len as int,
                                n,
                            ))) by {
                            if page_marked(done, i, page, n) {
                                let j = choose|j: int|
                                    0 <= j < done.len() && (#[trigger] done[j]).region == i
                                        && touches(
                                        page,
                                        done[j].offset as int,
                                        done[j].len as int,
                                        n,
                                    );
                                assert(more[j] == done[j]);
                            }
                            assert(more[k as int] == chunk);
                            if page_marked(more, i, page, n) {
                                let j = choose|j: int|
                                    0 <= j < more.len() && (#[trigger] more[j]).region == i
                                        && touches(
                                        page,
                                        more[j].offset as int,
                                        more[j].len as int,
                                        n,
                                    );
                                if j < k {
                                    assert(done[j] == more[j]);
                                }
                            }
                        }
                        let now = self.regions@[i].dirty->Some_0;
                        assert(dirty_bits(now) =~= Seq::new(
                            dirty_bits(b).len(),
                            |n: int| dirty_bits(b)[n] || page_marked(more, i, page, n),
                        ));
                    }
                }
                assert forall|i: int| 0 <= i < self.regions@.len() implies (
                #[trigger] self.regions@[i]).wf() by {
                    assert(before[i].wf());
                }
                assert forall|i: int, j: int| 0 <= i < j < self.regions@.len() implies (
                #[trigger] self.regions@[i]).start_addr + self.regions@[i].size <= (
                #[trigger] self.regions@[j]).start_addr by {
                    assert(before[i].start_addr + before[i].size <= before[j].start_addr);
                }
            }
            k += 1;
        }
        assert(chunks@.take(k as int) =~= chunks@);
    }

    /// What is saved of the layout.
    pub fn describe(&self) -> (r: GuestMemoryState)
        requires
            self.wf(),
        ensures
            r.regions@.len() == self.regions@.len(),
            forall|i: int|
                0 <= i < self.regions@.len() ==> self.regions@[i].described(
                    #[trigger] r.regions@[i],
                ),
    {
        let mut state = GuestMemoryState::default();
        let mut i: usize = 0;
        while i < self.regions.len()
            invariant
                self.wf(),
                i <= self.regions@.len(),
                state.regions@.len() == i,
                forall|j: int|
                    0 <= j < i ==> self.regions@[j].described(#[trigger] state.regions@[j]),
            decreases self.regions@.len() - i,
        {
            assert(self.regions@[i as int].wf());
            state.regions.push(self.regions[i].describe());
            i += 1;
        }
        state
    }
}

/// Whether a chunk holds a guest address.
pub open spec fn chunk_holds(regions: Seq<GuestRegionMmapExt>, chunk: RangeChunk, a: int) -> bool {
    regions[chunk.region as int].start_addr + chunk.offset <= a
        < regions[chunk.region as int].start_addr + chunk.offset + chunk.len
}

/// Whether some chunk holds a guest address.
pub open spec fn chunks_hold(
    regions: Seq<GuestRegionMmapExt>,
    chunks: Seq<RangeChunk>,
    a: int,
) -> bool {
    exists|k: int| 0 <= k < chunks.len() && chunk_holds(regions, #[trigger] chunks[k], a)
}

/// The chunks of a range that lies in memory hold exactly the addresses of the range, each in the
/// region that it belongs to.
pub proof fn law_chunks_are_the_range(
    regions: Seq<GuestRegionMmapExt>,
    addr: int,
    len: int,
    a: int,
)
    requires
        regions_wf(regions),
        regions.len() <= usize::MAX,
        0 <= addr,
        0 < len <= usize::MAX,
        walk(regions, addr, len).1 is None,
    ensures
        chunks_hold(regions, walk(regions, addr, len).0, a) <==> addr <= a < addr + len,
        forall|k: int|
            0 <= k < walk(regions, addr, len).0.len() ==> inside(
                regions,
                #[trigger] walk(regions, addr, len).0[k],
            ),
    decreases len,
{
    lemma_walk_inside(regions, addr, len);
    let chunks = walk(regions, addr, len).0;
    let i = region_of(regions, addr)->0;
    assert(regions[i].covers(addr));
    assert(regions[i].wf());
    let offset = addr - regions[i].start_addr;
    let here = smaller(regions[i].size - offset, len);
    assert(chunks[0] == (RangeChunk {
        region: i as usize,
        offset: offset as u64,
        len: here as usize,
    }));
    if here < len {
        let rest = walk(regions, addr + here, len - here).0;
        law_chunks_are_the_range(regions, addr + here, len - here, a);
        assert(chunks =~= seq![chunks[0]] + rest);
        if chunks_hold(regions, chunks, a) {
            let k = choose|k: int|
                0 <= k < chunks.len() && chunk_holds(regions, #[trigger] chunks[k], a);
            if k > 0 {
                assert(rest[k - 1] == chunks[k]);
            }
        }
        if chunks_hold(regions, rest, a) {
            let k = choose|k: int|
                0 <= k < rest.len() && chunk_holds(regions, #[trigger] rest[k], a);
            assert(chunks[k + 1] == rest[k]);
        }
    }
    if addr <= a < addr + here {
        assert(chunk_holds(regions, chunks[0], a));
    }
}

/// What the monitor writes to guest memory is noted: the page of each byte of the range is marked
/// in the bitmap of its region, if it has one. Nothing that was marked before is lost.
pub proof fn law_writes_are_noted(
    regions: Seq<GuestRegionMmapExt>,
    after: GuestRegionMmapExt,
    addr: int,
    len: int,
    i: int,
    a: int,
    n: int,
)
    requires
        regions_wf(regions),
        regions.len() <= usize::MAX,
        0 <= addr,
        0 < len <= usize::MAX,
        walk(regions, addr, len).1 is None,
        0 <= i < regions.len(),
        region_marked(regions[i], after, walk(regions, addr, len).0, i),
        addr <= a < addr + len,
        regions[i].covers(a),
    ensures
        regions[i].dirty matches Some(b) ==> {
            let page = dirty_page(b) as int;
            let x = a - regions[i].start_addr;
            &&& after.dirty is Some
            &&& x / page < dirty_bits(b).len() ==> dirty_bits(after.dirty->0)[x / page]
            &&& 0 <= n < dirty_bits(b).len() && dirty_bits(b)[n] ==> dirty_bits(after.dirty->0)[n]
        },
        regions[i].dirty is None ==> after.dirty is None,
{
    match regions[i].dirty {
        Some(b) => {
            let page = dirty_page(b) as int;
            assert(regions[i].wf());
            assert(page > 0);
            let x = a - regions[i].start_addr;
            let chunks = walk(regions, addr, len).0;
            law_chunks_are_the_range(regions, addr, len, a);
            let k = choose|k: int|
                0 <= k < chunks.len() && chunk_holds(regions, #[trigger] chunks[k], a);
            let chunk = chunks[k];
            assert(inside(regions, chunk));
            assert(regions[chunk.region as int].wf());
            assert(regions[chunk.region as int].covers(a));
            lemma_region_of(regions, i, a);
            lemma_region_of(regions, chunk.region as int, a);
            assert(chunk.region == i);
            let first = chunk.offset as int;
            let end = chunk.offset + chunk.len - 1;
            assert(first <= x <= end);
            vstd::arithmetic::div_mod::lemma_div_is_ordered(first, x, page);
            vstd::arithmetic::div_mod::lemma_div_is_ordered(x, end, page);
            assert(touches(page, first, chunk.len as int, x / page));
            assert(page_marked(chunks, i, page, x / page));
            assert(0 <= x / page) by (nonlinear_arith)
                requires
                    0 <= x,
                    page > 0,
            ;
        },
        None => {},
    }
}

/// Each region gets one mapping of its own, at its own address and with its own length. It is of
/// the file, or of none, and writes to it are noted, as is asked for. If nothing is too large, no
/// region is left out.
pub proof fn law_every_region_is_mapped(
    regions: Seq<(u64, usize)>,
    flags: i32,
    file: bool,
    track_dirty_pages: bool,
    offset: int,
    i: int,
)
    requires
        0 <= offset,
    ensures
        ({
            let (all, error) = mappings(regions, flags, file, track_dirty_pages, offset);
            &&& all.len() <= regions.len()
            &&& 0 <= i < all.len() ==> {
                &&& all[i].start == regions[i].0
                &&& all[i].size == regions[i].1
                &&& all[i].flags == flags
                &&& all[i].track_dirty_pages == track_dirty_pages
                &&& all[i].file_offset is Some <==> file
            }
            &&& offset + total_size(regions) < i64::MAX && (forall|k: int|
                0 <= k < regions.len() ==> (#[trigger] regions[k]).0 + regions[k].1 <= u64::MAX)
                ==> error is None && all.len() == regions.len()
        }),
    decreases regions.len(),
{
    if regions.len() > 0 {
        let rest = regions.skip(1);
        let (all, error) = mappings(regions, flags, file, track_dirty_pages, offset);
        let next = offset + regions[0].1;
        law_every_region_is_mapped(rest, flags, file, track_dirty_pages, next, i - 1);
        lemma_total_size(rest);
        if 0 < i < all.len() {
            assert(rest[i - 1] == regions[i]);
        }
        if forall|k: int|
            0 <= k < regions.len() ==> (#[trigger] regions[k]).0 + regions[k].1 <= u64::MAX {
            assert(regions[0].0 + regions[0].1 <= u64::MAX);
            assert forall|k: int| 0 <= k < rest.len() implies (#[trigger] rest[k]).0 + rest[k].1
                <= u64::MAX by {
                assert(rest[k] == regions[k + 1]);
            }
        }
    }
}

} // verus!
