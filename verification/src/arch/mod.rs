//! What depends on the architecture.

use vstd::prelude::*;

use crate::utils::text::{decimal, decimal_string, join3};

pub mod layout;
pub mod x86_64;

verus! {

/// The size of a page of the guest.
pub const GUEST_PAGE_SIZE: usize = 4096;

/// A device of the platform.
#[derive(Debug, Clone, Copy, PartialEq, Eq, Structural)]
pub enum DeviceType {
    /// A virtio device of a given type.
    Virtio(u32),
    /// The boot timer.
    BootTimer,
}

/// The name of a device of the platform.
pub open spec fn device_type_text(device: DeviceType) -> Seq<char> {
    match device {
        DeviceType::Virtio(n) => "Virtio("@ + decimal(n as nat) + ")"@,
        DeviceType::BootTimer => "BootTimer"@,
    }
}

impl DeviceType {
    /// The name of the device.
    pub fn text(&self) -> (r: String)
        ensures
            r@ == device_type_text(*self),
    {
        match self {
            DeviceType::Virtio(n) => join3("Virtio(", decimal_string(*n as u64).as_str(), ")"),
            DeviceType::BootTimer => String::from_str("BootTimer"),
        }
    }
}

/// How a guest is booted.
#[derive(Debug, Clone, Copy, PartialEq, Eq, Structural)]
pub enum BootProtocol {
    /// The 64-bit boot protocol of Linux.
    LinuxBoot,
    /// The direct boot protocol for hardware virtual machines.
    PvhBoot,
}

impl BootProtocol {
    /// The name of the protocol.
    pub fn text(&self) -> (r: &'static str)
        ensures
            r@ == (match *self {
                BootProtocol::LinuxBoot => "Linux 64-bit boot protocol"@,
                BootProtocol::PvhBoot => "PVH boot protocol"@,
            }),
    {
        match self {
            BootProtocol::LinuxBoot => "Linux 64-bit boot protocol",
            BootProtocol::PvhBoot => "PVH boot protocol",
        }
    }
}

/// Where and how a guest starts.
#[derive(Debug, Clone, Copy, PartialEq, Eq, Structural)]
pub struct EntryPoint {
    /// Guest address of the first instruction.
    pub entry_addr: u64,
    /// How the guest is booted.
    pub protocol: BootProtocol,
}

/// The size of a page of the host, from what the system says: 4 KiB where it says nothing useful.
pub fn host_page_size(answer: i64) -> (r: usize)
    ensures
        r == (if 0 <= answer <= usize::MAX {
            answer as usize
        } else {
            4096
        }),
{
    if 0 <= answer && answer as u64 <= usize::MAX as u64 {
        answer as usize
    } else {
        4096
    }
}

/// The part of a region before a gap, if there is one, and what is left for behind the gap.
pub open spec fn around_gap(start: int, size: int, gap_start: int, gap_size: int) -> (
    Option<(int, int)>,
    Option<(int, int)>,
) {
    let past = gap_start + gap_size;
    if start + size <= gap_start {
        (Some((start, size)), None)
    } else if start < gap_start {
        (Some((start, gap_start - start)), Some((past, start + size - gap_start)))
    } else {
        (
            None,
            Some(
                (
                    if past >= start {
                        past
                    } else {
                        start
                    },
                    size,
                ),
            ),
        )
    }
}

/// Adds the part of a region before a gap to a list of regions, and gives back what is left for
/// behind the gap.
pub fn arch_memory_regions_with_gap(
    regions: &mut Vec<(u64, usize)>,
    region_start: u64,
    region_size: usize,
    gap_start: u64,
    gap_size: u64,
) -> (r: Option<(u64, usize)>)
    requires
        gap_size > 0,
        gap_start + gap_size <= u64::MAX,
        region_start + region_size <= u64::MAX,
    ensures
        ({
            let (before, left) = around_gap(
                region_start as int,
                region_size as int,
                gap_start as int,
                gap_size as int,
            );
            &&& final(regions)@ == (match before {
                Some((start, size)) => old(regions)@.push((start as u64, size as usize)),
                None => old(regions)@,
            })
            &&& r == (match left {
                Some((start, size)) => Some((start as u64, size as usize)),
                None => None,
            })
        }),
{
    let first_addr_past_gap: u64 = gap_start + gap_size;
    let end: u64 = region_start + region_size as u64;
    if end <= gap_start {
        regions.push((region_start, region_size));
        None
    } else if region_start < gap_start {
        regions.push((region_start, (gap_start - region_start) as usize));
        Some((first_addr_past_gap, (end - gap_start) as usize))
    } else {
        Some(
            (
                if first_addr_past_gap >= region_start {
                    first_addr_past_gap
                } else {
                    region_start
                },
                region_size,
            ),
        )
    }
}

/// No memory is lost at a gap and none is put into it.
pub proof fn law_gap_holds_no_memory(start: int, size: int, gap_start: int, gap_size: int)
    requires
        0 <= start,
        0 <= size,
        0 <= gap_start,
        0 < gap_size,
    ensures
        ({
            let (before, left) = around_gap(start, size, gap_start, gap_size);
            let near = match before {
                Some(b) => b.1,
                None => 0,
            };
            let far = match left {
                Some(l) => l.1,
                None => 0,
            };
            &&& near + far == size
            &&& before matches Some(b) ==> b.0 == start && b.0 + b.1 <= gap_start
            &&& left matches Some(l) ==> l.0 >= gap_start + gap_size
        }),
{
}

/// Memory before the gap stays where it is, as far as it reaches, and the rest moves behind the gap.
/// Memory behind the gap stays where it is.
pub proof fn law_memory_moves_behind_the_gap(start: int, size: int, gap_start: int, gap_size: int)
    requires
        0 <= start,
        0 < size,
        0 <= gap_start,
        0 < gap_size,
    ensures
        ({
            let (before, left) = around_gap(start, size, gap_start, gap_size);
            &&& before is Some <==> start < gap_start
            &&& before matches Some(b) ==> b.0 == start && b.1 == (if start + size < gap_start {
                size
            } else {
                gap_start - start
            })
            &&& left is Some <==> start + size > gap_start
            &&& left matches Some(l) ==> l.0 == (if start > gap_start + gap_size {
                start
            } else {
                gap_start + gap_size
            })
            &&& size == (match before {
                Some(b) => b.1,
                None => 0,
            }) + (match left {
                Some(l) => l.1,
                None => 0,
            })
        }),
{
}

} // verus!
