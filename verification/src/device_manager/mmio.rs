//! Devices that the guest reaches through memory.

use linux_loader::cmdline::Cmdline;
use vstd::prelude::*;

use crate::arch::layout;
use crate::devices::virtio::device::VirtioDeviceType;
use crate::utils::text::{hex_string, hexadecimal};
use crate::vmm_config::boot_source::{
    boot_args, cmdline_add_virtio_mmio_device, cmdline_insert, init_args, inserted,
    mmio_device_arg, plain_key, plain_value, same_text, CmdlineError,
};
use crate::vstate::resources::{
    address_allocate_first, allocated_exactly, apart, can_hand_out, count_free, disjoint, has_room,
    is_power_of_two, law_blocks_never_overlap, lowest_free, placed_first, same_ranges,
    AllocatorError, ResourceAllocator,
};

verus! {

/// Length of the memory of a device.
pub const MMIO_LEN: u64 = 0x1000;

/// Offset of the register by which the driver gives notice of a queue.
pub const NOTIFY_REG_OFFSET: u64 = 0x50;

/// Why a device cannot be registered.
#[derive(Debug, Clone, Copy, PartialEq, Eq, Structural)]
pub enum MmioError {
    /// A resource cannot be allocated.
    Allocator(AllocatorError),
    /// The kernel cannot be told of the device.
    Cmdline(CmdlineError),
    /// The device does not have exactly one interrupt line.
    InvalidIrqConfig,
}

/// Memory and interrupt line of a device.
#[derive(Debug, Clone, Copy, PartialEq, Eq, Structural)]
pub struct MMIODeviceInfo {
    /// Guest address of the first byte.
    pub addr: u64,
    /// Number of bytes.
    pub len: u64,
    /// Interrupt line.
    pub gsi: Option<u32>,
}

impl MMIODeviceInfo {
    /// The memory, both ends included.
    pub open spec fn range(self) -> (int, int) {
        (self.addr as int, self.addr + self.len - 1)
    }
}

/// A device in the hardware description of the guest.
#[derive(Debug, Clone, Copy, PartialEq, Eq, Structural)]
pub struct AmlDevice {
    /// Number of the device, from zero on.
    pub dev_id: u32,
    /// Guest address of the first byte.
    pub addr: u64,
    /// Number of bytes.
    pub len: u64,
    /// Interrupt line.
    pub gsi: u32,
}

/// A registered device.
#[derive(Debug)]
pub struct MMIODevice {
    /// What the device is.
    pub device_type: VirtioDeviceType,
    /// Identifier of the device.
    pub device_id: String,
    /// Memory and interrupt line.
    pub resources: MMIODeviceInfo,
}

impl MMIODevice {
    /// Whether the device is the one with a given sort and identifier.
    pub open spec fn is_at(self, device_type: VirtioDeviceType, device_id: Seq<char>) -> bool {
        self.device_type == device_type && self.device_id@ == device_id
    }
}

/// A notice of a queue that is handled without leaving the guest for long.
#[derive(Debug, Clone, Copy, PartialEq, Eq, Structural)]
pub struct IoEvent {
    /// Guest address that is written.
    pub addr: u64,
    /// Value that is written.
    pub datamatch: u32,
}

/// What is to be set up for a device.
#[derive(Debug)]
pub struct Registration {
    /// Notices of its queues, in the order of the queues.
    pub io_events: Vec<IoEvent>,
    /// Its interrupt line.
    pub gsi: u32,
    /// Its memory.
    pub addr: u64,
    /// Length of its memory.
    pub len: u64,
}

/// What comes of a request for memory and a number of interrupt lines. The lines stay taken where
/// the rest fails.
pub open spec fn mmio_allocated(
    before: ResourceAllocator,
    after: ResourceAllocator,
    irq_count: u32,
    r: Result<MMIODeviceInfo, MmioError>,
) -> bool {
    let lines = before.gsi_legacy_allocator;
    let room = has_room(before.mmio32_memory, MMIO_LEN as int, MMIO_LEN as int);
    &&& after == (ResourceAllocator {
        gsi_legacy_allocator: after.gsi_legacy_allocator,
        mmio32_memory: after.mmio32_memory,
        ..before
    })
    &&& irq_count > count_free(lines.taken()) ==> {
        &&& r == Err::<MMIODeviceInfo, _>(
            MmioError::Allocator(AllocatorError::ResourceNotAvailable),
        )
        &&& after.gsi_legacy_allocator.first_id() == lines.first_id()
        &&& after.gsi_legacy_allocator.taken() == lines.taken()
        &&& after.mmio32_memory == before.mmio32_memory
    }
    &&& irq_count <= count_free(lines.taken()) ==> exists|ids: Seq<u32>|
        {
            &&& #[trigger] lowest_free(lines, ids)
            &&& ids.len() == irq_count
            &&& allocated_exactly(lines, after.gsi_legacy_allocator, ids)
            &&& irq_count > 1 ==> {
                &&& r == Err::<MMIODeviceInfo, _>(MmioError::InvalidIrqConfig)
                &&& after.mmio32_memory == before.mmio32_memory
            }
            &&& irq_count <= 1 ==> {
                &&& !room ==> r == Err::<MMIODeviceInfo, _>(
                    MmioError::Allocator(AllocatorError::ResourceNotAvailable),
                ) && same_ranges(before.mmio32_memory, after.mmio32_memory)
                &&& room && can_hand_out(before.mmio32_memory) ==> r is Ok
                &&& r is Err ==> r->Err_0 is Allocator
                &&& r matches Ok(info) ==> {
                    &&& info.len == MMIO_LEN
                    &&& info.gsi == (if irq_count == 0 {
                        None
                    } else {
                        Some(ids[0])
                    })
                    &&& placed_first(
                        before.mmio32_memory,
                        after.mmio32_memory,
                        info.addr as int,
                        MMIO_LEN as int,
                        MMIO_LEN as int,
                    )
                }
            }
        }
}

/// Two devices that are given resources one after the other share neither memory nor an interrupt
/// line.
pub proof fn law_devices_share_nothing(
    r0: ResourceAllocator,
    r1: ResourceAllocator,
    r2: ResourceAllocator,
    a: MMIODeviceInfo,
    b: MMIODeviceInfo,
)
    requires
        apart(r0.mmio32_memory),
        mmio_allocated(r0, r1, 1, Ok(a)),
        mmio_allocated(r1, r2, 1, Ok(b)),
    ensures
        a.gsi is Some,
        b.gsi is Some,
        a.gsi != b.gsi,
        disjoint(a.range(), b.range()),
        apart(r2.mmio32_memory),
{
    law_blocks_never_overlap(
        r0.mmio32_memory,
        r1.mmio32_memory,
        a.addr as int,
        MMIO_LEN as int,
        MMIO_LEN as int,
    );
    law_blocks_never_overlap(
        r1.mmio32_memory,
        r2.mmio32_memory,
        b.addr as int,
        MMIO_LEN as int,
        MMIO_LEN as int,
    );
    assert(crate::vstate::resources::allocated_ranges(r1.mmio32_memory).contains(a.range()));
    let ids = choose|ids: Seq<u32>|
        {
            &&& #[trigger] lowest_free(r0.gsi_legacy_allocator, ids)
            &&& ids.len() == 1
            &&& allocated_exactly(r0.gsi_legacy_allocator, r1.gsi_legacy_allocator, ids)
            &&& a.gsi == Some(ids[0])
        };
    let more = choose|ids: Seq<u32>|
        {
            &&& #[trigger] lowest_free(r1.gsi_legacy_allocator, ids)
            &&& ids.len() == 1
            &&& allocated_exactly(r1.gsi_legacy_allocator, r2.gsi_legacy_allocator, ids)
            &&& b.gsi == Some(ids[0])
        };
    assert(r0.gsi_legacy_allocator.manages(ids[0] as int));
    assert(r1.gsi_legacy_allocator.has(ids[0] as int));
    assert(!r1.gsi_legacy_allocator.has(more[0] as int));
}

/// Whether a device at a fixed address got its resources: a new one the lowest free interrupt line,
/// a restored one the line that it had.
pub open spec fn fixed_allocated(
    before: ResourceAllocator,
    after: ResourceAllocator,
    addr: u64,
    device_info_opt: Option<MMIODeviceInfo>,
    r: Result<MMIODeviceInfo, MmioError>,
) -> bool {
    let lines = before.gsi_legacy_allocator;
    &&& after == (ResourceAllocator { gsi_legacy_allocator: after.gsi_legacy_allocator, ..before })
    &&& match device_info_opt {
        Some(info) => match info.gsi {
            None => r is Err && r->Err_0 == MmioError::InvalidIrqConfig && after == before,
            Some(gsi) => {
                &&& !lines.manages(gsi as int) ==> r is Err && r->Err_0 == MmioError::Allocator(
                    AllocatorError::OutOfRange(gsi),
                )
                &&& lines.manages(gsi as int) && lines.has(gsi as int) ==> r is Err && r->Err_0
                    == MmioError::Allocator(AllocatorError::ResourceNotAvailable)
                &&& lines.manages(gsi as int) && !lines.has(gsi as int) ==> r is Ok && r->Ok_0
                    == info && after.gsi_legacy_allocator.taken() == lines.taken().update(
                    gsi - lines.first_id(),
                    true,
                )
                &&& r is Err ==> after.gsi_legacy_allocator.taken() == lines.taken()
                &&& after.gsi_legacy_allocator.first_id() == lines.first_id()
            },
        },
        None => if count_free(lines.taken()) >= 1 {
            &&& r is Ok
            &&& r->Ok_0.addr == addr
            &&& r->Ok_0.len == MMIO_LEN
            &&& r->Ok_0.gsi is Some
            &&& lowest_free(lines, seq![r->Ok_0.gsi->Some_0])
            &&& allocated_exactly(
                lines,
                after.gsi_legacy_allocator,
                seq![r->Ok_0.gsi->Some_0],
            )
        } else {
            &&& r is Err
            &&& r->Err_0 == MmioError::Allocator(AllocatorError::ResourceNotAvailable)
            &&& after.gsi_legacy_allocator.taken() == lines.taken()
        },
    }
}

/// How the kernel is told of the early console: by its address, in eight hexadecimal digits at
/// least.
pub open spec fn early_console(addr: u64) -> Seq<char> {
    let digits = hexadecimal(addr as nat);
    "uart,mmio,0x"@ + Seq::new(
        (if digits.len() < 8 {
            8 - digits.len()
        } else {
            0
        }) as nat,
        |i: int| '0',
    ) + digits
}

/// What hexadecimal digits are.
proof fn lemma_hex_digits(n: nat, i: int)
    requires
        0 <= i < hexadecimal(n).len(),
    ensures
        '0' <= hexadecimal(n)[i] <= '9' || 'a' <= hexadecimal(n)[i] <= 'f',
    decreases n,
{
    if n >= 16 && i < hexadecimal(n / 16).len() {
        lemma_hex_digits(n / 16, i);
    }
}

/// The name and the value of the early console need no quotes.
proof fn lemma_early_console(addr: u64)
    ensures
        plain_key("earlycon"@),
        plain_value(early_console(addr)),
{
    reveal_strlit("earlycon");
    reveal_strlit("uart,mmio,0x");
    let text = early_console(addr);
    let digits = hexadecimal(addr as nat);
    let n = text.len() - digits.len();
    assert forall|i: int| 0 <= i < text.len() implies ' ' < #[trigger] text[i] <= '~' && text[i]
        != '"' by {
        if i >= n {
            lemma_hex_digits(addr as nat, i - n);
            assert(text[i] == digits[i - n]);
        }
    }
}

/// The devices of a machine that the guest reaches through memory.
#[derive(Debug)]
pub struct MMIODeviceManager {
    /// Virtio devices.
    pub virtio_devices: Vec<MMIODevice>,
    /// Memory of the boot timer.
    pub boot_timer: Option<MMIODeviceInfo>,
    /// Memory and interrupt line of the serial port.
    pub serial: Option<MMIODeviceInfo>,
    /// Memory and interrupt line of the real time clock.
    pub rtc: Option<MMIODeviceInfo>,
    /// Hardware description of the virtio devices, in the order in which they were added. The
    /// guest numbers them in this order.
    pub dsdt_data: Vec<AmlDevice>,
}

/// Whether the device at `i` is the one with a given sort and identifier.
pub open spec fn found_at(
    devices: Seq<MMIODevice>,
    device_type: VirtioDeviceType,
    device_id: Seq<char>,
    i: int,
) -> bool {
    0 <= i < devices.len() && devices[i].is_at(device_type, device_id)
}

/// What comes of registering a device: it replaces the one with the same sort and identifier, or
/// comes after all others.
pub open spec fn registered(
    before: Seq<MMIODevice>,
    after: Seq<MMIODevice>,
    device: MMIODevice,
) -> bool {
    &&& forall|i: int| #[trigger]
        found_at(before, device.device_type, device.device_id@, i) ==> after == before.update(
            i,
            device,
        )
    &&& (forall|i: int| !#[trigger] found_at(before, device.device_type, device.device_id@, i))
        ==> after == before.push(device)
}

impl MMIODeviceManager {
    /// No two devices have the same sort and identifier.
    pub open spec fn wf(self) -> bool {
        forall|i: int, j: int|
            0 <= i < j < self.virtio_devices@.len() ==> !(#[trigger] self.virtio_devices@[i]).is_at(
                (#[trigger] self.virtio_devices@[j]).device_type,
                self.virtio_devices@[j].device_id@,
            )
    }

    /// No devices.
    pub fn new() -> (r: MMIODeviceManager)
        ensures
            r.wf(),
            r.virtio_devices@.len() == 0,
            r.boot_timer is None,
            r.serial is None,
            r.rtc is None,
            r.dsdt_data@.len() == 0,
    {
        MMIODeviceManager {
            virtio_devices: Vec::new(),
            boot_timer: None,
            serial: None,
            rtc: None,
            dsdt_data: Vec::new(),
        }
    }

    /// Takes memory and interrupt lines for a device.
    pub fn allocate_mmio_resources(resources: &mut ResourceAllocator, irq_count: u32) -> (r: Result<
        MMIODeviceInfo,
        MmioError,
    >)
        requires
            old(resources).wf(),
        ensures
            final(resources).wf(),
            mmio_allocated(*old(resources), *final(resources), irq_count, r),
    {
        let ghost before = *resources;
        let ids = match resources.allocate_gsi_legacy(irq_count) {
            Ok(ids) => ids,
            Err(e) => {
                return Err(MmioError::Allocator(e));
            },
        };
        assert(lowest_free(before.gsi_legacy_allocator, ids@));
        let gsi: Option<u32> = if ids.len() == 0 {
            None
        } else if ids.len() == 1 {
            Some(ids[0])
        } else {
            return Err(MmioError::InvalidIrqConfig);
        };
        assert(is_power_of_two(MMIO_LEN)) by {
            assert(0x1000u64 & 0xfffu64 == 0) by (bit_vector);
        }
        match address_allocate_first(&mut resources.mmio32_memory, MMIO_LEN, MMIO_LEN) {
            Ok(addr) => Ok(MMIODeviceInfo { addr, len: MMIO_LEN, gsi }),
            Err(e) => Err(MmioError::Allocator(e)),
        }
    }

    /// Tells the kernel of a device.
    pub fn add_virtio_device_to_cmdline(cmdline: &mut Cmdline, device_info: &MMIODeviceInfo) -> (r:
        Result<(), MmioError>)
        requires
            device_info.gsi is Some,
        ensures
            cmdline_answer(*old(cmdline), *final(cmdline), *device_info, r),
    {
        match cmdline_add_virtio_mmio_device(
            cmdline,
            device_info.len,
            device_info.addr,
            device_info.gsi.unwrap(),
        ) {
            Ok(()) => Ok(()),
            Err(e) => Err(MmioError::Cmdline(e)),
        }
    }

    /// Takes resources for a new device, tells the kernel of it and describes it to the guest. The
    /// device is then still to be set up and registered.
    pub fn register_mmio_virtio_for_boot(
        &mut self,
        resources: &mut ResourceAllocator,
        cmdline: &mut Cmdline,
        device_type: VirtioDeviceType,
        device_id: String,
    ) -> (r: Result<MMIODevice, MmioError>)
        requires
            old(resources).wf(),
        ensures
            final(resources).wf(),
            final(self).virtio_devices == old(self).virtio_devices,
            final(self).boot_timer == old(self).boot_timer,
            final(self).serial == old(self).serial,
            final(self).rtc == old(self).rtc,
            boot_registered(
                (*old(resources), *final(resources)),
                (*old(cmdline), *final(cmdline)),
                match r {
                    Ok(device) => Ok(device.resources),
                    Err(e) => Err(e),
                },
            ),
            r is Err ==> final(self).dsdt_data == old(self).dsdt_data,
            r matches Ok(device) ==> {
                &&& device.is_at(device_type, device_id@)
                &&& device.device_id == device_id
                &&& final(self).dsdt_data@ == old(self).dsdt_data@.push(
                    described(device.resources),
                )
            },
    {
        let ghost before = *resources;
        let info = match Self::allocate_mmio_resources(resources, 1) {
            Ok(info) => info,
            Err(e) => {
                return Err(e);
            },
        };
        let ghost ids = choose|ids: Seq<u32>|
            {
                &&& #[trigger] lowest_free(before.gsi_legacy_allocator, ids)
                &&& ids.len() == 1
                &&& info.gsi == Some(ids[0])
            };
        assert(before.gsi_legacy_allocator.manages(ids[0] as int));
        let gsi: u32 = info.gsi.unwrap();
        match Self::add_virtio_device_to_cmdline(cmdline, &info) {
            Ok(()) => {},
            Err(e) => {
                assert(untold((before, *resources), (*old(cmdline), *cmdline), info, e));
                return Err(e);
            },
        }
        self.dsdt_data.push(
            AmlDevice {
                dev_id: gsi - layout::GSI_LEGACY_START,
                addr: info.addr,
                len: info.len,
                gsi,
            },
        );
        Ok(MMIODevice { device_type, device_id, resources: info })
    }

    /// What is to be set up for a device with a given number of queues.
    pub fn registration(device: &MMIODevice, queue_count: u32) -> (r: Result<
        Registration,
        MmioError,
    >)
        requires
            device.resources.addr + NOTIFY_REG_OFFSET <= u64::MAX,
        ensures
            match r {
                Err(e) => device.resources.gsi is None && e == MmioError::InvalidIrqConfig,
                Ok(reg) => {
                    &&& device.resources.gsi == Some(reg.gsi)
                    &&& reg.addr == device.resources.addr
                    &&& reg.len == device.resources.len
                    &&& reg.io_events@ == Seq::new(
                        queue_count as nat,
                        |i: int|
                            IoEvent {
                                addr: (device.resources.addr + NOTIFY_REG_OFFSET) as u64,
                                datamatch: i as u32,
                            },
                    )
                },
            },
    {
        let gsi: u32 = match device.resources.gsi {
            Some(gsi) => gsi,
            None => {
                return Err(MmioError::InvalidIrqConfig);
            },
        };
        let mut io_events: Vec<IoEvent> = Vec::new();
        let mut i: u32 = 0;
        while i < queue_count
            invariant
                i <= queue_count,
                device.resources.addr + NOTIFY_REG_OFFSET <= u64::MAX,
                io_events@ == Seq::new(
                    i as nat,
                    |k: int|
                        IoEvent {
                            addr: (device.resources.addr + NOTIFY_REG_OFFSET) as u64,
                            datamatch: k as u32,
                        },
                ),
            decreases queue_count - i,
        {
            io_events.push(
                IoEvent { addr: device.resources.addr + NOTIFY_REG_OFFSET, datamatch: i },
            );
            i = i + 1;
        }
        Ok(
            Registration {
                io_events,
                gsi,
                addr: device.resources.addr,
                len: device.resources.len,
            },
        )
    }

    // The position of the device with a given sort and identifier.
    fn position(&self, device_type: VirtioDeviceType, device_id: &str) -> (r: Option<usize>)
        ensures
            match r {
                Some(i) => found_at(self.virtio_devices@, device_type, device_id@, i as int),
                None => forall|i: int| !#[trigger]
                    found_at(self.virtio_devices@, device_type, device_id@, i),
            },
    {
        let id = String::from_str(device_id);
        let mut i: usize = 0;
        while i < self.virtio_devices.len()
            invariant
                i <= self.virtio_devices@.len(),
                id@ == device_id@,
                forall|k: int|
                    0 <= k < i ==> !#[trigger] found_at(
                        self.virtio_devices@,
                        device_type,
                        device_id@,
                        k,
                    ),
            decreases self.virtio_devices.len() - i,
        {
            if self.virtio_devices[i].device_type == device_type
                && self.virtio_devices[i].device_id == id {
                return Some(i);
            }
            i = i + 1;
        }
        None
    }

    /// Registers a device that is set up. A device with the same sort and identifier is replaced.
    pub fn register_mmio_virtio(&mut self, device: MMIODevice)
        requires
            old(self).wf(),
        ensures
            final(self).wf(),
            final(self).boot_timer == old(self).boot_timer,
            final(self).serial == old(self).serial,
            final(self).rtc == old(self).rtc,
            final(self).dsdt_data == old(self).dsdt_data,
            registered(old(self).virtio_devices@, final(self).virtio_devices@, device),
    {
        let ghost before = self.virtio_devices@;
        match self.position(device.device_type, device.device_id.as_str()) {
            Some(i) => {
                assert forall|k: int| #[trigger]
                    found_at(before, device.device_type, device.device_id@, k) implies k == i by {
                    assert(before[k].is_at(before[i as int].device_type, before[i as int].device_id@));
                }
                self.virtio_devices.set(i, device);
            },
            None => {
                proof {
                    assert forall|k: int| 0 <= k < before.len() implies !(
                    #[trigger] before[k]).is_at(device.device_type, device.device_id@) by {
                        assert(!found_at(before, device.device_type, device.device_id@, k));
                    }
                }
                self.virtio_devices.push(device);
            },
        }
    }

    /// Takes an interrupt line for a device at a fixed address, or, for a device that is restored,
    /// the line that it had.
    fn fixed_resources(
        resource_allocator: &mut ResourceAllocator,
        addr: u64,
        device_info_opt: Option<MMIODeviceInfo>,
    ) -> (r: Result<MMIODeviceInfo, MmioError>)
        requires
            old(resource_allocator).wf(),
        ensures
            final(resource_allocator).wf(),
            fixed_allocated(
                *old(resource_allocator),
                *final(resource_allocator),
                addr,
                device_info_opt,
                r,
            ),
    {
        match device_info_opt {
            Some(info) => {
                let gsi: u32 = match info.gsi {
                    Some(gsi) => gsi,
                    None => {
                        return Err(MmioError::InvalidIrqConfig);
                    },
                };
                match resource_allocator.gsi_legacy_allocator.allocate_id_at(gsi) {
                    Ok(_) => Ok(info),
                    Err(e) => Err(MmioError::Allocator(e)),
                }
            },
            None => match resource_allocator.allocate_gsi_legacy(1) {
                Ok(gsi) => Ok(MMIODeviceInfo { addr, len: MMIO_LEN, gsi: Some(gsi[0]) }),
                Err(e) => Err(MmioError::Allocator(e)),
            },
        }
    }

    /// Adds the serial port, which is at a fixed address unless it is restored.
    pub fn register_mmio_serial(
        &mut self,
        resource_allocator: &mut ResourceAllocator,
        addr: u64,
        device_info_opt: Option<MMIODeviceInfo>,
    ) -> (r: Result<MMIODeviceInfo, MmioError>)
        requires
            old(resource_allocator).wf(),
        ensures
            final(resource_allocator).wf(),
            fixed_allocated(
                *old(resource_allocator),
                *final(resource_allocator),
                addr,
                device_info_opt,
                r,
            ),
            match r {
                Ok(info) => *final(self) == (MMIODeviceManager {
                    serial: Some(info),
                    ..*old(self)
                }),
                Err(_) => *final(self) == *old(self),
            },
    {
        match MMIODeviceManager::fixed_resources(resource_allocator, addr, device_info_opt) {
            Ok(info) => {
                self.serial = Some(info);
                Ok(info)
            },
            Err(e) => Err(e),
        }
    }

    /// Adds the real time clock, which is at a fixed address unless it is restored.
    pub fn register_mmio_rtc(
        &mut self,
        resource_allocator: &mut ResourceAllocator,
        addr: u64,
        device_info_opt: Option<MMIODeviceInfo>,
    ) -> (r: Result<MMIODeviceInfo, MmioError>)
        requires
            old(resource_allocator).wf(),
        ensures
            final(resource_allocator).wf(),
            fixed_allocated(
                *old(resource_allocator),
                *final(resource_allocator),
                addr,
                device_info_opt,
                r,
            ),
            match r {
                Ok(info) => *final(self) == (MMIODeviceManager { rtc: Some(info), ..*old(self) }),
                Err(_) => *final(self) == *old(self),
            },
    {
        match MMIODeviceManager::fixed_resources(resource_allocator, addr, device_info_opt) {
            Ok(info) => {
                self.rtc = Some(info);
                Ok(info)
            },
            Err(e) => Err(e),
        }
    }

    /// Tells the kernel to use the serial port early on.
    pub fn add_mmio_serial_to_cmdline(&self, cmdline: &mut Cmdline) -> (r: Result<(), MmioError>)
        requires
            self.serial is Some,
        ensures
            exists|done: Result<(), CmdlineError>|
                {
                    &&& #[trigger] inserted(
                        *old(cmdline),
                        *final(cmdline),
                        "earlycon"@ + seq!['='] + early_console(self.serial->Some_0.addr),
                        done,
                    )
                    &&& r == (match done {
                        Ok(_) => Ok(()),
                        Err(e) => Err(MmioError::Cmdline(e)),
                    })
                },
    {
        let addr: u64 = match self.serial {
            Some(info) => info.addr,
            None => 0,
        };
        let mut value = String::from_str("uart,mmio,0x");
        let digits = hex_string(addr);
        let n: usize = digits.as_str().unicode_len();
        let mut zeros: usize = 0;
        let ghost head = value@;
        assert(Seq::new(0, |i: int| '0') =~= Seq::<char>::empty());
        while n + zeros < 8
            invariant
                n == digits@.len(),
                zeros <= 8,
                n + zeros <= 8 || zeros == 0,
                value@ == head + Seq::new(zeros as nat, |i: int| '0'),
            decreases 8 - zeros,
        {
            let ghost before = value@;
            value.append("0");
            proof {
                reveal_strlit("0");
                assert(value@ =~= head + Seq::new((zeros + 1) as nat, |i: int| '0'));
            }
            zeros += 1;
        }
        value.append(digits.as_str());
        proof {
            assert(value@ =~= early_console(addr));
            lemma_early_console(addr);
        }
        let done = cmdline_insert(cmdline, "earlycon", value.as_str());
        assert(inserted(
            *old(cmdline),
            *cmdline,
            "earlycon"@ + seq!['='] + early_console(addr),
            done,
        ));
        match done {
            Ok(_) => Ok(()),
            Err(e) => Err(MmioError::Cmdline(e)),
        }
    }

    /// Registers the boot timer, which has a fixed place and no interrupt line.
    pub fn register_mmio_boot_timer(&mut self) -> (r: MMIODeviceInfo)
        ensures
            r == (MMIODeviceInfo {
                addr: layout::BOOT_DEVICE_MEM_START,
                len: MMIO_LEN,
                gsi: None,
            }),
            *final(self) == (MMIODeviceManager { boot_timer: Some(r), ..*old(self) }),
    {
        let info = MMIODeviceInfo { addr: layout::BOOT_DEVICE_MEM_START, len: MMIO_LEN, gsi: None };
        self.boot_timer = Some(info);
        info
    }

    /// The device with a given sort and identifier.
    pub fn get_virtio_device(&self, device_type: VirtioDeviceType, device_id: &str) -> (r: Option<
        &MMIODevice,
    >)
        ensures
            match r {
                Some(device) => exists|i: int|
                    #[trigger] found_at(self.virtio_devices@, device_type, device_id@, i) && *device
                        == self.virtio_devices@[i],
                None => forall|i: int| !#[trigger]
                    found_at(self.virtio_devices@, device_type, device_id@, i),
            },
    {
        match self.position(device_type, device_id) {
            Some(i) => Some(&self.virtio_devices[i]),
            None => None,
        }
    }
}

/// How a device with an interrupt line is described to the guest.
pub open spec fn described(info: MMIODeviceInfo) -> AmlDevice {
    AmlDevice {
        dev_id: (info.gsi->Some_0 - layout::GSI_LEGACY_START) as u32,
        addr: info.addr,
        len: info.len,
        gsi: info.gsi->Some_0,
    }
}

/// What comes of telling the kernel of a device.
pub open spec fn cmdline_answer(
    before: Cmdline,
    after: Cmdline,
    info: MMIODeviceInfo,
    r: Result<(), MmioError>,
) -> bool {
    if info.len == 0 {
        &&& r == Err::<(), _>(MmioError::Cmdline(CmdlineError::MmioSize))
        &&& same_text(before, after)
    } else {
        &&& r is Err ==> r->Err_0 is Cmdline
        &&& inserted(
            before,
            after,
            mmio_device_arg(info.len, info.addr, info.gsi->Some_0),
            match r {
                Ok(()) => Ok(()),
                Err(e) => Err(e->Cmdline_0),
            },
        )
    }
}

/// Whether a device has resources that the kernel could not be told of.
pub open spec fn untold(
    resources: (ResourceAllocator, ResourceAllocator),
    cmdline: (Cmdline, Cmdline),
    info: MMIODeviceInfo,
    e: MmioError,
) -> bool {
    &&& mmio_allocated(resources.0, resources.1, 1, Ok(info))
    &&& cmdline_answer(cmdline.0, cmdline.1, info, Err(e))
}

/// What comes of taking resources for a device and telling the kernel of it: each pair holds the
/// state before and after. The resources stay taken where the kernel cannot be told.
pub open spec fn boot_registered(
    resources: (ResourceAllocator, ResourceAllocator),
    cmdline: (Cmdline, Cmdline),
    r: Result<MMIODeviceInfo, MmioError>,
) -> bool {
    match r {
        Ok(info) => {
            &&& mmio_allocated(resources.0, resources.1, 1, Ok(info))
            &&& cmdline_answer(cmdline.0, cmdline.1, info, Ok(()))
        },
        Err(e) => if e is Cmdline {
            exists|info: MMIODeviceInfo| #[trigger] untold(resources, cmdline, info, e)
        } else {
            &&& mmio_allocated(resources.0, resources.1, 1, Err(e))
            &&& same_text(cmdline.0, cmdline.1)
        },
    }
}

/// A device is named on the command line by the size of its range, the address of the range in
/// hexadecimal notation, and its interrupt.
pub proof fn law_devices_on_the_command_line(addr: u64, irq: u32)
    ensures
        mmio_device_arg(0x1000, addr, irq) == "virtio_mmio.device="@ + seq!['4', 'K'] + "@0x"@
            + crate::utils::text::hexadecimal(addr as nat) + ":"@ + crate::utils::text::decimal(
            irq as nat,
        ),
{
    assert(crate::utils::text::decimal(4) =~= seq!['4']);
    assert(crate::utils::text::decimal(4).push('K') =~= seq!['4', 'K']);
}

/// Every device gets a page of addresses of its own, and tells the guest its own range and interrupt.
pub proof fn law_devices_get_a_page(
    before: ResourceAllocator,
    after: ResourceAllocator,
    info: MMIODeviceInfo,
)
    requires
        mmio_allocated(before, after, 1, Ok(info)),
        info.gsi is Some,
        info.gsi->0 >= 5,
    ensures
        info.len == 4096,
        info.addr as int % 4096 == 0,
        described(info).addr == info.addr,
        described(info).len == 4096,
        Some(described(info).gsi) == info.gsi,
        described(info).dev_id == info.gsi->0 - 5,
{
}

/// A device that is registered is found under its sort and identifier, and every other one stays
/// where it was. It takes the place of one that was registered as the same before.
pub proof fn law_registered_devices_are_found(
    before: Seq<MMIODevice>,
    after: Seq<MMIODevice>,
    device: MMIODevice,
    k: int,
)
    requires
        registered(before, after, device),
        forall|i: int, j: int|
            0 <= i < j < before.len() ==> !(#[trigger] before[i]).is_at(
                (#[trigger] before[j]).device_type,
                before[j].device_id@,
            ),
    ensures
        ({
            let same = |d: MMIODevice|
                d.device_type == device.device_type && d.device_id@ == device.device_id@;
            &&& after.contains(device)
            &&& 0 <= k < before.len() && !same(before[k]) ==> after[k] == before[k]
            &&& 0 <= k < before.len() && same(before[k]) ==> after[k] == device && after.len()
                == before.len()
            &&& after.len() <= before.len() + 1
        }),
{
    let (sort, id) = (device.device_type, device.device_id@);
    if exists|i: int| #[trigger] found_at(before, sort, id, i) {
        let i = choose|i: int| #[trigger] found_at(before, sort, id, i);
        assert(after[i] == device);
        if 0 <= k < before.len() && before[k].is_at(sort, id) {
            assert(found_at(before, sort, id, k));
            assert(k == i) by {
                if k < i {
                    assert(!before[k].is_at(before[i].device_type, before[i].device_id@));
                } else if i < k {
                    assert(!before[i].is_at(before[k].device_type, before[k].device_id@));
                }
            }
        }
    } else {
        assert(after[before.len() as int] == device);
        if 0 <= k < before.len() && before[k].is_at(sort, id) {
            assert(found_at(before, sort, id, k));
        }
    }
}

/// A device at a fixed address has an interrupt line that no other device has: a restored one that
/// which it had, a new one the lowest that was free. All other lines stay as they were.
pub proof fn law_fixed_devices_get_a_line(
    before: ResourceAllocator,
    after: ResourceAllocator,
    addr: u64,
    saved: Option<MMIODeviceInfo>,
    info: MMIODeviceInfo,
    id: int,
)
    requires
        before.wf(),
        fixed_allocated(before, after, addr, saved, Ok(info)),
        before.gsi_legacy_allocator.manages(id),
    ensures
        saved matches Some(s) ==> info == s,
        saved is None ==> info.addr == addr && info.len == 4096,
        info.gsi is Some,
        !before.gsi_legacy_allocator.has(info.gsi->0 as int),
        after.gsi_legacy_allocator.has(info.gsi->0 as int),
        id != info.gsi->0 ==> after.gsi_legacy_allocator.has(id) == before.gsi_legacy_allocator.has(
            id,
        ),
        saved is None && !before.gsi_legacy_allocator.has(id) ==> info.gsi->0 <= id,
        after.mmio32_memory == before.mmio32_memory,
        after.gsi_msi_allocator == before.gsi_msi_allocator,
{
    let lines = before.gsi_legacy_allocator;
    let left = after.gsi_legacy_allocator;
    match saved {
        Some(_) => {
            let gsi = info.gsi->0 as int;
            assert(left.taken() == lines.taken().update(gsi - lines.first_id(), true));
        },
        None => {
            let ids = seq![info.gsi->0];
            assert(ids[0] == info.gsi->0);
            assert(lowest_free(lines, ids));
            assert(allocated_exactly(lines, left, ids));
            assert(lines.manages(ids[0] as int));
            assert(left.has(ids[0] as int));
            if !lines.has(id) && id < info.gsi->0 {
                assert(id <= ids.last());
                let i = choose|i: int| 0 <= i < ids.len() && #[trigger] ids[i] == id;
            }
            if id != info.gsi->0 {
                assert(left.has(id) <==> lines.has(id) || exists|i: int|
                    0 <= i < ids.len() && #[trigger] ids[i] == id);
            }
        },
    }
}

/// The kernel is told of the early console by its address in hexadecimal, filled up with zeros to
/// eight digits.
pub proof fn law_address_of_the_early_console(addr: u64, i: int)
    ensures
        ({
            let text = early_console(addr);
            let digits = hexadecimal(addr as nat);
            &&& text.len() == 12 + (if digits.len() < 8 {
                8
            } else {
                digits.len() as int
            })
            &&& text.take(12) == "uart,mmio,0x"@
            &&& text.skip(text.len() - digits.len()) == digits
            &&& 12 <= i < text.len() - digits.len() ==> text[i] == '0'
        }),
{
    reveal_strlit("uart,mmio,0x");
    let text = early_console(addr);
    let digits = hexadecimal(addr as nat);
    assert("uart,mmio,0x"@.len() == 12);
    assert(text.take(12) =~= "uart,mmio,0x"@);
    assert(text.skip(text.len() - digits.len()) =~= digits);
}

/// The kernel is told of a device behind all that it was told before, by where it is, how large it is
/// and which interrupt it has; where there is no room for that it is told nothing.
pub proof fn law_kernel_is_told_of_devices(
    before: Cmdline,
    after: Cmdline,
    info: MMIODeviceInfo,
    r: Result<(), MmioError>,
)
    requires
        info.gsi is Some,
        info.len == 0x1000,
        boot_args(before).len() > 0,
        cmdline_answer(before, after, info, r),
    ensures
        r is Ok ==> boot_args(after) == boot_args(before) + " virtio_mmio.device=4K@0x"@
            + hexadecimal(info.addr as nat) + ":"@ + crate::utils::text::decimal(
            info.gsi->0 as nat,
        ),
        r is Err ==> boot_args(after) == boot_args(before) && r->Err_0 == MmioError::Cmdline(
            CmdlineError::TooLarge,
        ),
        init_args(after) == init_args(before),
{
    law_devices_on_the_command_line(info.addr, info.gsi->0);
    reveal_strlit(" virtio_mmio.device=4K@0x");
    reveal_strlit("virtio_mmio.device=");
    reveal_strlit("@0x");
    assert(seq![' '] + "virtio_mmio.device="@ + seq!['4', 'K'] + "@0x"@
        =~= " virtio_mmio.device=4K@0x"@);
    let arg = mmio_device_arg(0x1000, info.addr, info.gsi->0);
    if r is Ok {
        assert(boot_args(after) =~= boot_args(before) + (seq![' '] + "virtio_mmio.device="@ + seq![
            '4',
            'K',
        ] + "@0x"@) + hexadecimal(info.addr as nat) + ":"@ + crate::utils::text::decimal(
            info.gsi->0 as nat,
        ));
    }
}

} // verus!
