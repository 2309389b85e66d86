//! Where the memory of an x86 guest is.

use vstd::prelude::*;

use crate::arch::{arch_memory_regions_with_gap, around_gap, layout};
use crate::vstate::memory_map::total_size;

verus! {

/// The regions of memory for a number of bytes: around the gap for devices below 4 GiB, and around
/// the one for devices further up.
pub open spec fn ram_regions(size: int) -> Seq<(u64, usize)> {
    let (low, more) = around_gap(
        0,
        size,
        layout::MMIO32_MEM_START as int,
        layout::MMIO32_MEM_SIZE as int,
    );
    let first = entries(low);
    match more {
        None => first,
        Some((start, left)) => {
            let (high, rest) = around_gap(
                start,
                left,
                layout::MEM_64BIT_DEVICES_START as int,
                layout::MEM_64BIT_DEVICES_SIZE as int,
            );
            first + entries(high) + entries(rest)
        },
    }
}

/// A region as a list.
pub open spec fn entries(region: Option<(int, int)>) -> Seq<(u64, usize)> {
    match region {
        Some((start, size)) => seq![(start as u64, size as usize)],
        None => seq![],
    }
}

/// The regions of memory for a number of bytes.
pub fn arch_memory_regions(size: usize) -> (r: Vec<(u64, usize)>)
    requires
        size > 0,
        size <= 0xffff_ff00_0000_0000,
    ensures
        r@ == ram_regions(size as int),
        total_size(r@) == size,
{
    let mut regions: Vec<(u64, usize)> = Vec::new();
    proof {
        reveal_with_fuel(total_size, 4);
    }
    if let Some((start, left)) = arch_memory_regions_with_gap(
        &mut regions,
        0,
        size,
        layout::MMIO32_MEM_START,
        layout::MMIO32_MEM_SIZE,
    ) {
        if let Some((start, left)) = arch_memory_regions_with_gap(
            &mut regions,
            start,
            left,
            layout::MEM_64BIT_DEVICES_START,
            layout::MEM_64BIT_DEVICES_SIZE,
        ) {
            regions.push((start, left));
        }
    }
    assert(regions@ =~= ram_regions(size as int));
    proof {
        let s = regions@;
        assert(s.skip(1).skip(1).skip(1).len() == 0 || s.len() < 3);
        if s.len() == 3 {
            assert(s.skip(1)[0] == s[1] && s.skip(1).skip(1)[0] == s[2]);
        } else if s.len() == 2 {
            assert(s.skip(1)[0] == s[1]);
        }
    }
    regions
}

/// Guest memory starts at zero. What does not fit below 3 GiB goes on at 4 GiB, and what does not fit
/// below 256 GiB then goes on at 512 GiB.
pub proof fn law_guest_memory_has_two_gaps(size: int)
    requires
        0 < size <= 0xffff_ff00_0000_0000,
        size <= usize::MAX,
    ensures
        size <= 0xc000_0000 ==> ram_regions(size) == seq![(0u64, size as usize)],
        0xc000_0000 < size <= 0x3f_c000_0000 ==> ram_regions(size) == seq![
            (0u64, 0xc000_0000int as usize),
            (0x1_0000_0000u64, (size - 0xc000_0000) as usize),
        ],
        0x3f_c000_0000 < size ==> ram_regions(size) == seq![
            (0u64, 0xc000_0000int as usize),
            (0x1_0000_0000u64, 0x3f_0000_0000int as usize),
            (0x80_0000_0000u64, (size - 0x3f_c000_0000) as usize),
        ],
{
    if size <= 0xc000_0000 {
        assert(ram_regions(size) =~= seq![(0u64, size as usize)]);
    } else if size <= 0x3f_c000_0000 {
        assert(ram_regions(size) =~= seq![
            (0u64, 0xc000_0000int as usize),
            (0x1_0000_0000u64, (size - 0xc000_0000) as usize),
        ]);
    } else {
        assert(ram_regions(size) =~= seq![
            (0u64, 0xc000_0000int as usize),
            (0x1_0000_0000u64, 0x3f_0000_0000int as usize),
            (0x80_0000_0000u64, (size - 0x3f_c000_0000) as usize),
        ]);
    }
}

} // verus!
