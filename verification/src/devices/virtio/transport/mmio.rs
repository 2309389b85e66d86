//! The memory mapped transport of virtio devices.

use vstd::prelude::*;

use crate::devices::virtio::device::{VirtioDeviceType, VirtioInterruptType};
use crate::vstate::guest_memory::{bytes32, le32, read_le32, to_le32};

verus! {

/// Identifier of the vendor.
pub const VENDOR_ID: u32 = 0;

/// Interrupt flag: a queue has new used entries.
pub const VIRTIO_MMIO_INT_VRING: u32 = 0x01;

/// Interrupt flag: the configuration changed.
pub const VIRTIO_MMIO_INT_CONFIG: u32 = 0x02;

/// Value of the first register.
pub const MMIO_MAGIC_VALUE: u32 = 0x7472_6976;

/// Version of the register layout.
pub const MMIO_VERSION: u32 = 2;

/// Offset at which the configuration space of the device starts.
pub const CONFIG_SPACE_OFFSET: u64 = 0x100;

/// Status of a device that the driver has not touched.
pub const STATUS_INIT: u32 = 0;

/// Status bit: the guest found the device.
pub const STATUS_ACKNOWLEDGE: u32 = 1;

/// Status bit: the guest has a driver for the device.
pub const STATUS_DRIVER: u32 = 2;

/// Status bit: the driver is ready.
pub const STATUS_DRIVER_OK: u32 = 4;

/// Status bit: the features are agreed on.
pub const STATUS_FEATURES_OK: u32 = 8;

/// Status bit: the device cannot go on without a reset.
pub const STATUS_DEVICE_NEEDS_RESET: u32 = 64;

/// Status bit: the guest gave up on the device.
pub const STATUS_FAILED: u32 = 128;

/// What the driver configures about a queue.
#[derive(Debug, Clone, Copy, PartialEq, Eq, Structural)]
pub struct QueueConfig {
    /// The largest size that the device accepts.
    pub max_size: u16,
    /// The size that the driver chose.
    pub size: u16,
    /// Whether the driver finished the configuration.
    pub ready: bool,
    /// Guest address of the descriptor table.
    pub desc_table_address: u64,
    /// Guest address of the available ring.
    pub avail_ring_address: u64,
    /// Guest address of the used ring.
    pub used_ring_address: u64,
}

/// A queue that the driver has not configured.
pub open spec fn fresh_queue(max_size: u16) -> QueueConfig {
    QueueConfig {
        max_size,
        size: max_size,
        ready: false,
        desc_table_address: 0,
        avail_ring_address: 0,
        used_ring_address: 0,
    }
}

/// An address with another upper half.
pub open spec fn with_hi(addr: u64, x: u32) -> u64 {
    (addr & 0xffff_ffff) | ((x as u64) << 32)
}

/// An address with another lower half.
pub open spec fn with_lo(addr: u64, x: u32) -> u64 {
    (addr & !0xffff_ffffu64) | (x as u64)
}

/// Both halves of an address can be set in either order, and give the address.
pub proof fn law_address_halves(addr: u64, hi: u32, lo: u32)
    ensures
        with_hi(with_lo(addr, lo), hi) == hi * 0x1_0000_0000 + lo,
        with_lo(with_hi(addr, hi), lo) == hi * 0x1_0000_0000 + lo,
{
    assert(((((addr & !0xffff_ffffu64) | (lo as u64)) & 0xffff_ffff) | ((hi as u64) << 32)) == hi
        * 0x1_0000_0000 + lo) by (bit_vector);
    assert(((((addr & 0xffff_ffff) | ((hi as u64) << 32)) & !0xffff_ffffu64) | (lo as u64)) == hi
        * 0x1_0000_0000 + lo) by (bit_vector);
}

/// A queue after a write to one of its registers, or nothing if the register is not one of a
/// queue.
pub open spec fn queue_written(q: QueueConfig, offset: u64, v: u32) -> Option<QueueConfig> {
    if offset == 0x38 {
        Some(QueueConfig { size: (v & 0xffff) as u16, ..q })
    } else if offset == 0x44 {
        Some(QueueConfig { ready: v == 1, ..q })
    } else if offset == 0x80 {
        Some(QueueConfig { desc_table_address: with_lo(q.desc_table_address, v), ..q })
    } else if offset == 0x84 {
        Some(QueueConfig { desc_table_address: with_hi(q.desc_table_address, v), ..q })
    } else if offset == 0x90 {
        Some(QueueConfig { avail_ring_address: with_lo(q.avail_ring_address, v), ..q })
    } else if offset == 0x94 {
        Some(QueueConfig { avail_ring_address: with_hi(q.avail_ring_address, v), ..q })
    } else if offset == 0xa0 {
        Some(QueueConfig { used_ring_address: with_lo(q.used_ring_address, v), ..q })
    } else if offset == 0xa4 {
        Some(QueueConfig { used_ring_address: with_hi(q.used_ring_address, v), ..q })
    } else {
        None
    }
}

impl QueueConfig {
    /// A queue that the driver has not configured.
    pub fn new(max_size: u16) -> (r: QueueConfig)
        ensures
            r == fresh_queue(max_size),
    {
        QueueConfig {
            max_size,
            size: max_size,
            ready: false,
            desc_table_address: 0,
            avail_ring_address: 0,
            used_ring_address: 0,
        }
    }

    // Writes to one of the registers of the queue.
    fn write(&mut self, offset: u64, v: u32)
        ensures
            *final(self) == (match queue_written(*old(self), offset, v) {
                Some(q) => q,
                None => *old(self),
            }),
    {
        if offset == 0x38 {
            self.size = (v & 0xffff) as u16;
        } else if offset == 0x44 {
            self.ready = v == 1;
        } else if offset == 0x80 {
            self.desc_table_address = (self.desc_table_address & !0xffff_ffffu64) | (v as u64);
        } else if offset == 0x84 {
            self.desc_table_address = (self.desc_table_address & 0xffff_ffff) | ((v as u64) << 32);
        } else if offset == 0x90 {
            self.avail_ring_address = (self.avail_ring_address & !0xffff_ffffu64) | (v as u64);
        } else if offset == 0x94 {
            self.avail_ring_address = (self.avail_ring_address & 0xffff_ffff) | ((v as u64) << 32);
        } else if offset == 0xa0 {
            self.used_ring_address = (self.used_ring_address & !0xffff_ffffu64) | (v as u64);
        } else if offset == 0xa4 {
            self.used_ring_address = (self.used_ring_address & 0xffff_ffff) | ((v as u64) << 32);
        }
    }
}

/// The number that stands for a type of device.
pub open spec fn device_id_of(device_type: VirtioDeviceType) -> u32 {
    match device_type {
        VirtioDeviceType::Net => 1,
        VirtioDeviceType::Block => 2,
        VirtioDeviceType::Rng => 4,
        VirtioDeviceType::Balloon => 5,
        VirtioDeviceType::Vsock => 19,
        VirtioDeviceType::Mem => 24,
        VirtioDeviceType::Pmem => 27,
    }
}

/// Half of a set of features.
pub open spec fn features_page(features: u64, page: u32) -> u32 {
    if page == 0 {
        (features & 0xffff_ffff) as u32
    } else if page == 1 {
        (features >> 32) as u32
    } else {
        0
    }
}

/// The accepted features once the driver accepted half of a set: only features on offer count,
/// and none is taken back.
pub open spec fn features_acked(avail: u64, acked: u64, page: u32, value: u32) -> u64 {
    let v = if page == 0 {
        value as u64
    } else if page == 1 {
        (value as u64) << 32
    } else {
        0
    };
    acked | (v & avail)
}

/// The driver can only accept what is on offer, and never takes a feature back.
pub proof fn law_acked_features_are_on_offer(avail: u64, acked: u64, page: u32, value: u32)
    requires
        acked & !avail == 0,
    ensures
        features_acked(avail, acked, page, value) & !avail == 0,
        acked & !features_acked(avail, acked, page, value) == 0,
{
    let v = if page == 0 {
        value as u64
    } else if page == 1 {
        (value as u64) << 32
    } else {
        0
    };
    assert((acked | (v & avail)) & !avail == 0) by (bit_vector)
        requires
            acked & !avail == 0,
    ;
    assert(acked & !(acked | (v & avail)) == 0) by (bit_vector);
}

/// What the transport knows of the device behind it.
#[derive(Debug)]
pub struct DeviceView {
    /// Type of the device.
    pub device_type: VirtioDeviceType,
    /// Features on offer.
    pub avail_features: u64,
    /// Features that the driver accepted.
    pub acked_features: u64,
    /// Configuration of the queues.
    pub queues: Vec<QueueConfig>,
    /// Whether the device is active.
    pub activated: bool,
    /// Bytes of the configuration space.
    pub config: Vec<u8>,
}

/// The two sources of interrupts.
#[derive(Debug, Clone, Copy, PartialEq, Eq, Structural)]
pub enum IrqType {
    /// The configuration changed.
    Config,
    /// A queue has new used entries.
    Vring,
}

impl From<VirtioInterruptType> for IrqType {
    fn from(interrupt_type: VirtioInterruptType) -> (r: IrqType) {
        match interrupt_type {
            VirtioInterruptType::Config => IrqType::Config,
            VirtioInterruptType::Queue(_) => IrqType::Vring,
        }
    }
}

impl vstd::std_specs::convert::FromSpecImpl<VirtioInterruptType> for IrqType {
    open spec fn obeys_from_spec() -> bool {
        true
    }

    open spec fn from_spec(interrupt_type: VirtioInterruptType) -> IrqType {
        match interrupt_type {
            VirtioInterruptType::Config => IrqType::Config,
            VirtioInterruptType::Queue(_) => IrqType::Vring,
        }
    }
}

/// The interrupt flag of a source.
pub open spec fn irq_flag(irq_type: IrqType) -> u32 {
    match irq_type {
        IrqType::Config => VIRTIO_MMIO_INT_CONFIG,
        IrqType::Vring => VIRTIO_MMIO_INT_VRING,
    }
}

/// The interrupt status of a device.
#[derive(Debug, Clone, Copy, PartialEq, Eq, Structural)]
pub struct IrqTrigger {
    /// Flags of the interrupts that the driver has not acknowledged.
    pub irq_status: u32,
}

impl IrqTrigger {
    /// No interrupt is pending.
    pub fn new() -> (r: IrqTrigger)
        ensures
            r.irq_status == 0,
    {
        IrqTrigger { irq_status: 0 }
    }

    /// Records an interrupt. The event that carries it to the guest is up to the caller.
    pub fn trigger(&mut self, interrupt_type: VirtioInterruptType)
        ensures
            final(self).irq_status == old(self).irq_status | irq_flag(
                match interrupt_type {
                    VirtioInterruptType::Config => IrqType::Config,
                    VirtioInterruptType::Queue(_) => IrqType::Vring,
                },
            ),
    {
        self.trigger_irq(IrqType::from(interrupt_type));
    }

    /// Records an interrupt for queues, and says whether there is one to send.
    pub fn trigger_queues(&mut self, queues: &[u16]) -> (r: bool)
        ensures
            r == (queues@.len() > 0),
            final(self).irq_status == (if r {
                old(self).irq_status | VIRTIO_MMIO_INT_VRING
            } else {
                old(self).irq_status
            }),
    {
        if queues.len() == 0 {
            return false;
        }
        self.trigger_irq(IrqType::Vring);
        true
    }

    fn trigger_irq(&mut self, irq_type: IrqType)
        ensures
            final(self).irq_status == old(self).irq_status | irq_flag(irq_type),
    {
        let irq: u32 = match irq_type {
            IrqType::Config => VIRTIO_MMIO_INT_CONFIG,
            IrqType::Vring => VIRTIO_MMIO_INT_VRING,
        };
        self.irq_status = self.irq_status | irq;
    }
}

/// What is to be done about the device behind the transport.
#[derive(Debug, Clone, Copy, PartialEq, Eq, Structural)]
pub enum MmioAction {
    /// Nothing.
    Nothing,
    /// Activate the device, then report with `activation_answered`.
    Activate,
    /// Reset the device, then report with `reset_answered`.
    ResetDevice,
    /// Write the data to the configuration space of the device at an offset.
    WriteConfig(u64),
}

/// The memory mapped transport of one device.
#[derive(Debug)]
pub struct MmioTransport {
    /// The device behind the transport.
    pub device: DeviceView,
    /// Which half of the offered features the driver reads.
    pub features_select: u32,
    /// Which half of the accepted features the driver writes.
    pub acked_features_select: u32,
    /// Which queue the driver configures.
    pub queue_select: u32,
    /// Status of the device.
    pub device_status: u32,
    /// Counts changes of the configuration space.
    pub config_generation: u32,
    /// Interrupts of the device.
    pub interrupt: IrqTrigger,
    /// Whether another process implements the device.
    pub is_vhost_user: bool,
}

/// Whether a status holds all bits of `set` and none of `clr`.
pub open spec fn status_is(status: u32, set: u32, clr: u32) -> bool {
    status & (set | clr) == set
}

/// Whether the driver may configure queues in this status.
pub open spec fn may_configure_queues(status: u32) -> bool {
    status_is(status, STATUS_FEATURES_OK, STATUS_DRIVER_OK | STATUS_FAILED)
}

/// Whether the driver may accept features in this status.
pub open spec fn may_ack_features(status: u32) -> bool {
    status_is(
        status,
        STATUS_DRIVER,
        STATUS_FEATURES_OK | STATUS_FAILED | STATUS_DEVICE_NEEDS_RESET,
    )
}

/// Whether the driver may write to the configuration space in this status.
pub open spec fn may_write_config(status: u32) -> bool {
    status_is(status, STATUS_DRIVER, STATUS_FAILED | STATUS_DEVICE_NEEDS_RESET)
}

/// The status of a device that is in use.
pub open spec fn status_in_use() -> u32 {
    STATUS_ACKNOWLEDGE | STATUS_DRIVER | STATUS_FEATURES_OK | STATUS_DRIVER_OK
}

/// Whether the driver may move from one status to the other: it goes through the steps of the
/// initialisation one by one.
pub open spec fn is_next_status(from: u32, to: u32) -> bool {
    ||| from == STATUS_INIT && to == STATUS_ACKNOWLEDGE
    ||| from == STATUS_ACKNOWLEDGE && to == STATUS_ACKNOWLEDGE | STATUS_DRIVER
    ||| from == STATUS_ACKNOWLEDGE | STATUS_DRIVER && to == STATUS_ACKNOWLEDGE | STATUS_DRIVER
        | STATUS_FEATURES_OK
    ||| from == STATUS_ACKNOWLEDGE | STATUS_DRIVER | STATUS_FEATURES_OK && to == status_in_use()
}

impl MmioTransport {
    /// Whether `self` is `before` after a reset: selectors, status and interrupts are cleared and
    /// every queue is as new, everything else stays.
    pub open spec fn is_reset_of(self, before: MmioTransport) -> bool {
        &&& self.features_select == 0
        &&& self.acked_features_select == 0
        &&& self.queue_select == 0
        &&& self.interrupt.irq_status == 0
        &&& self.device_status == STATUS_INIT
        &&& self.config_generation == before.config_generation
        &&& self.is_vhost_user == before.is_vhost_user
        &&& self.same_device_but_queues(before)
        &&& self.device.queues@ == before.device.queues@.map_values(
            |q: QueueConfig| fresh_queue(q.max_size),
        )
    }

    /// Whether the device is the same but for the configuration of its queues.
    pub open spec fn same_device_but_queues(self, before: MmioTransport) -> bool {
        &&& self.device.device_type == before.device.device_type
        &&& self.device.avail_features == before.device.avail_features
        &&& self.device.acked_features == before.device.acked_features
        &&& self.device.activated == before.device.activated
        &&& self.device.config == before.device.config
    }

    /// Creates the transport of a device.
    pub fn new(device: DeviceView, interrupt: IrqTrigger, is_vhost_user: bool) -> (r: MmioTransport)
        ensures
            r.device == device,
            r.features_select == 0,
            r.acked_features_select == 0,
            r.queue_select == 0,
            r.device_status == STATUS_INIT,
            r.config_generation == 0,
            r.interrupt == interrupt,
            r.is_vhost_user == is_vhost_user,
    {
        MmioTransport {
            device,
            features_select: 0,
            acked_features_select: 0,
            queue_select: 0,
            device_status: STATUS_INIT,
            config_generation: 0,
            interrupt,
            is_vhost_user,
        }
    }

    fn check_device_status(&self, set: u32, clr: u32) -> (r: bool)
        ensures
            r == status_is(self.device_status, set, clr),
    {
        self.device_status & (set | clr) == set
    }

    // Writes to a register of the selected queue, if the status allows it and there is one.
    fn update_queue_field(&mut self, offset: u64, v: u32)
        ensures
            final(self).features_select == old(self).features_select,
            final(self).acked_features_select == old(self).acked_features_select,
            final(self).queue_select == old(self).queue_select,
            final(self).device_status == old(self).device_status,
            final(self).config_generation == old(self).config_generation,
            final(self).interrupt == old(self).interrupt,
            final(self).is_vhost_user == old(self).is_vhost_user,
            final(self).same_device_but_queues(*old(self)),
            final(self).device.queues@ == queues_written(*old(self), offset, v),
    {
        if self.check_device_status(STATUS_FEATURES_OK, STATUS_DRIVER_OK | STATUS_FAILED) {
            if (self.queue_select as u64) < self.device.queues.len() as u64 {
                let i: usize = self.queue_select as usize;
                let mut q = self.device.queues[i];
                q.write(offset, v);
                self.device.queues.set(i, q);
            }
        }
        assert(self.device.queues@ =~= queues_written(*old(self), offset, v));
    }

    fn reset(&mut self)
        ensures
            final(self).is_reset_of(*old(self)),
    {
        self.features_select = 0;
        self.acked_features_select = 0;
        self.queue_select = 0;
        self.interrupt.irq_status = 0;
        self.device_status = STATUS_INIT;
        let ghost before = *old(self);
        let mut i: usize = 0;
        while i < self.device.queues.len()
            invariant
                i <= self.device.queues@.len(),
                self.features_select == 0,
                self.acked_features_select == 0,
                self.queue_select == 0,
                self.interrupt.irq_status == 0,
                self.device_status == STATUS_INIT,
                self.config_generation == before.config_generation,
                self.is_vhost_user == before.is_vhost_user,
                self.same_device_but_queues(before),
                self.device.queues@.len() == before.device.queues@.len(),
                forall|k: int|
                    0 <= k < self.device.queues@.len() ==> #[trigger] self.device.queues@[k] == if k
                        < i {
                        fresh_queue(before.device.queues@[k].max_size)
                    } else {
                        before.device.queues@[k]
                    },
            decreases self.device.queues.len() - i,
        {
            let q = QueueConfig::new(self.device.queues[i].max_size);
            self.device.queues.set(i, q);
            i = i + 1;
        }
        assert(self.device.queues@ =~= before.device.queues@.map_values(
            |q: QueueConfig| fresh_queue(q.max_size),
        ));
    }

    /// Moves to another status as the driver asks, and says what is to be done about the device.
    pub fn set_device_status(&mut self, status: u32) -> (r: MmioAction)
        ensures
            status_set(*old(self), *final(self), status, r),
    {
        if (status & STATUS_FAILED) != 0 {
            self.device_status = self.device_status | STATUS_FAILED;
            MmioAction::Nothing
        } else if status == STATUS_INIT {
            if self.device.activated {
                return MmioAction::ResetDevice;
            }
            // A device that failed stays marked as failed.
            if self.device_status & STATUS_FAILED == 0 {
                self.reset();
            }
            MmioAction::Nothing
        } else if (self.device_status == STATUS_INIT && status == STATUS_ACKNOWLEDGE) || (
        self.device_status == STATUS_ACKNOWLEDGE && status == STATUS_ACKNOWLEDGE | STATUS_DRIVER)
            || (self.device_status == STATUS_ACKNOWLEDGE | STATUS_DRIVER && status
            == STATUS_ACKNOWLEDGE | STATUS_DRIVER | STATUS_FEATURES_OK) || (self.device_status
            == STATUS_ACKNOWLEDGE | STATUS_DRIVER | STATUS_FEATURES_OK && status
            == STATUS_ACKNOWLEDGE | STATUS_DRIVER | STATUS_FEATURES_OK | STATUS_DRIVER_OK) {
            self.device_status = status;
            if status == STATUS_ACKNOWLEDGE | STATUS_DRIVER | STATUS_FEATURES_OK | STATUS_DRIVER_OK
                && !self.device.activated {
                MmioAction::Activate
            } else {
                MmioAction::Nothing
            }
        } else {
            MmioAction::Nothing
        }
    }

    /// Goes on once the device was asked to become active, and says which interrupt is due.
    pub fn activation_answered(&mut self, succeeded: bool) -> (r: Option<VirtioInterruptType>)
        ensures
            r == (if succeeded {
                None
            } else {
                Some(VirtioInterruptType::Config)
            }),
            *final(self) == (if succeeded {
                MmioTransport {
                    device: DeviceView { activated: true, ..old(self).device },
                    ..*old(self)
                }
            } else {
                MmioTransport {
                    device_status: old(self).device_status | STATUS_DEVICE_NEEDS_RESET,
                    interrupt: IrqTrigger {
                        irq_status: old(self).interrupt.irq_status | VIRTIO_MMIO_INT_CONFIG,
                    },
                    ..*old(self)
                }
            }),
    {
        if succeeded {
            self.device.activated = true;
            None
        } else {
            self.device_status = self.device_status | STATUS_DEVICE_NEEDS_RESET;
            self.interrupt.trigger(VirtioInterruptType::Config);
            Some(VirtioInterruptType::Config)
        }
    }

    /// Goes on once the active device was asked to reset itself. A device that did is no longer
    /// active. One that cannot is marked as failed. The transport is only reset where the device is
    /// not marked as failed.
    pub fn reset_answered(&mut self, supported: bool)
        ensures
            ({
                let answered = if supported {
                    MmioTransport {
                        device: DeviceView { activated: false, ..old(self).device },
                        ..*old(self)
                    }
                } else {
                    MmioTransport {
                        device_status: old(self).device_status | STATUS_FAILED,
                        ..*old(self)
                    }
                };
                if answered.device_status & STATUS_FAILED == 0 {
                    final(self).is_reset_of(answered)
                } else {
                    *final(self) == answered
                }
            }),
    {
        if supported {
            self.device.activated = false;
        } else {
            self.device_status = self.device_status | STATUS_FAILED;
        }
        if self.device_status & STATUS_FAILED == 0 {
            self.reset();
        }
    }

    /// Whether the selectors and the constant parts are the same.
    pub open spec fn same_registers(self, before: MmioTransport) -> bool {
        &&& self.features_select == before.features_select
        &&& self.acked_features_select == before.acked_features_select
        &&& self.queue_select == before.queue_select
        &&& self.config_generation == before.config_generation
        &&& self.is_vhost_user == before.is_vhost_user
    }

    /// The value of a register, or nothing if there is no such register to read.
    pub open spec fn register(self, offset: u64) -> Option<u32> {
        let selected = if self.queue_select < self.device.queues@.len() {
            Some(self.device.queues@[self.queue_select as int])
        } else {
            None
        };
        if offset == 0x0 {
            Some(MMIO_MAGIC_VALUE)
        } else if offset == 0x04 {
            Some(MMIO_VERSION)
        } else if offset == 0x08 {
            Some(device_id_of(self.device.device_type))
        } else if offset == 0x0c {
            Some(VENDOR_ID)
        } else if offset == 0x10 {
            // Compliance with version one of the standard is always on offer.
            Some(
                if self.features_select == 1 {
                    features_page(self.device.avail_features, 1) | 0x1
                } else {
                    features_page(self.device.avail_features, self.features_select)
                },
            )
        } else if offset == 0x34 {
            Some(
                match selected {
                    Some(q) => q.max_size as u32,
                    None => 0,
                },
            )
        } else if offset == 0x44 {
            Some(
                match selected {
                    Some(q) => if q.ready {
                        1
                    } else {
                        0
                    },
                    None => 0,
                },
            )
        } else if offset == 0x60 {
            // Another process cannot report the cause of its interrupts: all but a change of
            // the configuration count as caused by a queue.
            Some(
                if !self.is_vhost_user {
                    self.interrupt.irq_status
                } else if self.interrupt.irq_status == VIRTIO_MMIO_INT_CONFIG {
                    VIRTIO_MMIO_INT_CONFIG
                } else {
                    VIRTIO_MMIO_INT_VRING
                },
            )
        } else if offset == 0x70 {
            Some(self.device_status)
        } else if offset == 0xfc {
            Some(self.config_generation)
        } else {
            None
        }
    }

    fn read_register(&self, offset: u64) -> (r: Option<u32>)
        ensures
            r == self.register(offset),
    {
        if offset == 0x0 {
            Some(MMIO_MAGIC_VALUE)
        } else if offset == 0x04 {
            Some(MMIO_VERSION)
        } else if offset == 0x08 {
            Some(
                match self.device.device_type {
                    VirtioDeviceType::Net => 1,
                    VirtioDeviceType::Block => 2,
                    VirtioDeviceType::Rng => 4,
                    VirtioDeviceType::Balloon => 5,
                    VirtioDeviceType::Vsock => 19,
                    VirtioDeviceType::Mem => 24,
                    VirtioDeviceType::Pmem => 27,
                },
            )
        } else if offset == 0x0c {
            Some(VENDOR_ID)
        } else if offset == 0x10 {
            let features: u32 = if self.features_select == 0 {
                (self.device.avail_features & 0xffff_ffff) as u32
            } else if self.features_select == 1 {
                (self.device.avail_features >> 32) as u32 | 0x1
            } else {
                0
            };
            Some(features)
        } else if offset == 0x34 || offset == 0x44 {
            if (self.queue_select as u64) < self.device.queues.len() as u64 {
                let q = self.device.queues[self.queue_select as usize];
                if offset == 0x34 {
                    Some(q.max_size as u32)
                } else if q.ready {
                    Some(1)
                } else {
                    Some(0)
                }
            } else {
                Some(0)
            }
        } else if offset == 0x60 {
            let is: u32 = self.interrupt.irq_status;
            if !self.is_vhost_user {
                Some(is)
            } else if is == VIRTIO_MMIO_INT_CONFIG {
                Some(VIRTIO_MMIO_INT_CONFIG)
            } else {
                Some(VIRTIO_MMIO_INT_VRING)
            }
        } else if offset == 0x70 {
            Some(self.device_status)
        } else if offset == 0xfc {
            Some(self.config_generation)
        } else {
            None
        }
    }

    /// What `data` holds after a read at `offset`: a register as four bytes, or as much of the
    /// configuration space as there is. Any other read leaves the data as it is.
    pub open spec fn read_into(self, offset: u64, data: Seq<u8>) -> Seq<u8> {
        if offset < CONFIG_SPACE_OFFSET {
            if data.len() == 4 && self.register(offset) is Some {
                bytes32(self.register(offset)->0)
            } else {
                data
            }
        } else if offset <= 0xfff {
            Seq::new(
                data.len(),
                |i: int|
                    if offset - CONFIG_SPACE_OFFSET + i < self.device.config@.len() {
                        self.device.config@[offset - CONFIG_SPACE_OFFSET + i]
                    } else {
                        data[i]
                    },
            )
        } else {
            data
        }
    }

    /// Serves a read of the guest.
    pub fn read(&self, offset: u64, data: &mut Vec<u8>)
        ensures
            final(data)@ == self.read_into(offset, old(data)@),
    {
        if offset < CONFIG_SPACE_OFFSET {
            if data.len() == 4 {
                if let Some(v) = self.read_register(offset) {
                    *data = to_le32(v);
                }
            }
        } else if offset <= 0xfff {
            let from: usize = (offset - CONFIG_SPACE_OFFSET) as usize;
            let ghost before = data@;
            let mut i: usize = 0;
            while i < data.len() && from < self.device.config.len() && i < self.device.config.len()
                - from
                invariant
                    data@.len() == before.len(),
                    i <= data@.len(),
                    from == offset - CONFIG_SPACE_OFFSET,
                    forall|k: int|
                        0 <= k < data@.len() ==> #[trigger] data@[k] == if k < i {
                            self.device.config@[from + k]
                        } else {
                            before[k]
                        },
                    i == 0 || from + i <= self.device.config@.len(),
                decreases data.len() - i,
            {
                data.set(i, self.device.config[from + i]);
                i = i + 1;
            }
            assert(data@ =~= self.read_into(offset, before));
        }
    }

    /// Serves a write of the guest, and says what is to be done about the device.
    pub fn write(&mut self, offset: u64, data: &[u8]) -> (r: MmioAction)
        ensures
            guest_wrote(*old(self), *final(self), offset, data@, r),
    {
        if offset < CONFIG_SPACE_OFFSET {
            if data.len() != 4 {
                return MmioAction::Nothing;
            }
            assert(data@.subrange(0, 4) =~= data@);
            let v: u32 = read_le32(data, 0);
            if offset == 0x14 {
                self.features_select = v;
            } else if offset == 0x20 {
                if self.check_device_status(
                    STATUS_DRIVER,
                    STATUS_FEATURES_OK | STATUS_FAILED | STATUS_DEVICE_NEEDS_RESET,
                ) {
                    let accepted: u64 = if self.acked_features_select == 0 {
                        v as u64
                    } else if self.acked_features_select == 1 {
                        (v as u64) << 32
                    } else {
                        0
                    };
                    self.device.acked_features = self.device.acked_features | (accepted
                        & self.device.avail_features);
                }
            } else if offset == 0x24 {
                self.acked_features_select = v;
            } else if offset == 0x30 {
                self.queue_select = v;
            } else if offset == 0x64 {
                if self.check_device_status(STATUS_DRIVER_OK, 0) {
                    self.interrupt.irq_status = self.interrupt.irq_status & !v;
                }
            } else if offset == 0x70 {
                return self.set_device_status(v);
            } else if offset == 0x38 || offset == 0x44 || offset == 0x80 || offset == 0x84 || offset
                == 0x90 || offset == 0x94 || offset == 0xa0 || offset == 0xa4 {
                self.update_queue_field(offset, v);
            }
            MmioAction::Nothing
        } else if offset <= 0xfff {
            if self.check_device_status(STATUS_DRIVER, STATUS_FAILED | STATUS_DEVICE_NEEDS_RESET) {
                MmioAction::WriteConfig(offset - CONFIG_SPACE_OFFSET)
            } else {
                MmioAction::Nothing
            }
        } else {
            MmioAction::Nothing
        }
    }
}

/// The queues after a write to a register: the selected one changes, if the status allows it.
pub open spec fn queues_written(before: MmioTransport, offset: u64, v: u32) -> Seq<QueueConfig> {
    let i = before.queue_select as int;
    if may_configure_queues(before.device_status) && i < before.device.queues@.len()
        && queue_written(before.device.queues@[i], offset, v) is Some {
        before.device.queues@.update(i, queue_written(before.device.queues@[i], offset, v)->0)
    } else {
        before.device.queues@
    }
}

/// What a move to another status does.
pub open spec fn status_set(
    before: MmioTransport,
    after: MmioTransport,
    status: u32,
    action: MmioAction,
) -> bool {
    if status & STATUS_FAILED != 0 {
        &&& action == MmioAction::Nothing
        &&& after.device_status == before.device_status | STATUS_FAILED
        &&& after.same_registers(before)
        &&& after.device == before.device
        &&& after.interrupt == before.interrupt
    } else if status == STATUS_INIT {
        if before.device.activated {
            action == MmioAction::ResetDevice && after == before
        } else if before.device_status & STATUS_FAILED == 0 {
            action == MmioAction::Nothing && after.is_reset_of(before)
        } else {
            action == MmioAction::Nothing && after == before
        }
    } else if is_next_status(before.device_status, status) {
        &&& after.device_status == status
        &&& after.same_registers(before)
        &&& after.device == before.device
        &&& after.interrupt == before.interrupt
        &&& action == (if status == status_in_use() && !before.device.activated {
            MmioAction::Activate
        } else {
            MmioAction::Nothing
        })
    } else {
        action == MmioAction::Nothing && after == before
    }
}

/// What a write of a value to a register does.
pub open spec fn register_written(
    before: MmioTransport,
    after: MmioTransport,
    offset: u64,
    v: u32,
    action: MmioAction,
) -> bool {
    if offset == 0x70 {
        status_set(before, after, v, action)
    } else {
        &&& action == MmioAction::Nothing
        &&& after.device_status == before.device_status
        &&& after.config_generation == before.config_generation
        &&& after.is_vhost_user == before.is_vhost_user
        &&& after.features_select == (if offset == 0x14 {
            v
        } else {
            before.features_select
        })
        &&& after.acked_features_select == (if offset == 0x24 {
            v
        } else {
            before.acked_features_select
        })
        &&& after.queue_select == (if offset == 0x30 {
            v
        } else {
            before.queue_select
        })
        &&& after.interrupt.irq_status == (if offset == 0x64 && status_is(
            before.device_status,
            STATUS_DRIVER_OK,
            0,
        ) {
            before.interrupt.irq_status & !v
        } else {
            before.interrupt.irq_status
        })
        &&& after.device.acked_features == (if offset == 0x20 && may_ack_features(
            before.device_status,
        ) {
            features_acked(
                before.device.avail_features,
                before.device.acked_features,
                before.acked_features_select,
                v,
            )
        } else {
            before.device.acked_features
        })
        &&& after.device.device_type == before.device.device_type
        &&& after.device.avail_features == before.device.avail_features
        &&& after.device.activated == before.device.activated
        &&& after.device.config == before.device.config
        &&& after.device.queues@ == queues_written(before, offset, v)
    }
}

/// What a write of the guest does.
pub open spec fn guest_wrote(
    before: MmioTransport,
    after: MmioTransport,
    offset: u64,
    data: Seq<u8>,
    action: MmioAction,
) -> bool {
    &&& offset < CONFIG_SPACE_OFFSET && data.len() == 4 ==> register_written(
        before,
        after,
        offset,
        le32(data),
        action,
    )
    &&& offset < CONFIG_SPACE_OFFSET && data.len() != 4 || offset > 0xfff ==> action
        == MmioAction::Nothing && after == before
    &&& CONFIG_SPACE_OFFSET <= offset <= 0xfff ==> {
        &&& after == before
        &&& action == (if may_write_config(before.device_status) {
            MmioAction::WriteConfig((offset - CONFIG_SPACE_OFFSET) as u64)
        } else {
            MmioAction::Nothing
        })
    }
}

/// The driver cannot clear a status bit other than by a reset: whatever it writes, every bit of
/// the old status is still set, unless it writes zero.
pub proof fn law_status_bits_stay(
    before: MmioTransport,
    after: MmioTransport,
    status: u32,
    action: MmioAction,
)
    requires
        status_set(before, after, status, action),
        status != STATUS_INIT,
    ensures
        before.device_status & !after.device_status == 0,
{
    let b = before.device_status;
    assert(b & !(b | 128) == 0) by (bit_vector);
    assert(b & !b == 0) by (bit_vector);
    assert(0u32 & !1u32 == 0 && 1u32 & !(1u32 | 2) == 0 && (1u32 | 2) & !(1u32 | 2 | 8) == 0 && (1u32
        | 2 | 8) & !(1u32 | 2 | 8 | 4) == 0) by (bit_vector);
}

/// Whether the driver wrote statuses one after the other, with what came of each.
pub open spec fn statuses_set(
    transports: Seq<MmioTransport>,
    statuses: Seq<u32>,
    actions: Seq<MmioAction>,
) -> bool {
    &&& transports.len() == statuses.len() + 1
    &&& actions.len() == statuses.len()
    &&& forall|i: int|
        0 <= i < statuses.len() ==> status_set(
            transports[i],
            transports[i + 1],
            #[trigger] statuses[i],
            actions[i],
        )
}

/// A device that is marked as failed keeps its status and is not activated, however often the
/// driver writes a status, as long as it does not ask for a reset.
pub proof fn law_failed_needs_reset(
    transports: Seq<MmioTransport>,
    statuses: Seq<u32>,
    actions: Seq<MmioAction>,
)
    requires
        statuses_set(transports, statuses, actions),
        transports[0].device_status & STATUS_FAILED != 0,
        forall|i: int| 0 <= i < statuses.len() ==> #[trigger] statuses[i] != STATUS_INIT,
    ensures
        forall|i: int|
            0 <= i < transports.len() ==> (#[trigger] transports[i]).device_status
                == transports[0].device_status && transports[i].device.activated
                == transports[0].device.activated,
        forall|i: int| 0 <= i < actions.len() ==> #[trigger] actions[i] == MmioAction::Nothing,
    decreases statuses.len(),
{
    if statuses.len() > 0 {
        let n = statuses.len() - 1;
        let sooner = transports.drop_last();
        assert forall|i: int| 0 <= i < n implies status_set(
            sooner[i],
            sooner[i + 1],
            #[trigger] statuses.drop_last()[i],
            actions.drop_last()[i],
        ) by {
            assert(statuses[i] == statuses.drop_last()[i]);
        }
        law_failed_needs_reset(sooner, statuses.drop_last(), actions.drop_last());
        let b = transports[n].device_status;
        assert(sooner[n] == transports[n]);
        assert(status_set(transports[n], transports[n + 1], statuses[n], actions[n]));
        assert(b & 128 != 0 ==> b | 128 == b && b != 0 && b != 1 && b != 1u32 | 2 && b != 1u32 | 2
            | 8) by (bit_vector);
        assert forall|i: int| 0 <= i < transports.len() implies (
        #[trigger] transports[i]).device_status == transports[0].device_status
            && transports[i].device.activated == transports[0].device.activated by {
            if i <= n {
                assert(sooner[i] == transports[i]);
            }
        }
        assert forall|i: int| 0 <= i < actions.len() implies #[trigger] actions[i]
            == MmioAction::Nothing by {
            if i < n {
                assert(actions.drop_last()[i] == actions[i]);
            }
        }
    }
}

/// A device is only ever activated by the last step of the initialisation, and at that point the
/// driver can no longer configure queues.
pub proof fn law_activation_follows_initialisation(
    before: MmioTransport,
    after: MmioTransport,
    offset: u64,
    v: u32,
)
    requires
        register_written(before, after, offset, v, MmioAction::Activate),
    ensures
        offset == 0x70,
        before.device_status == STATUS_ACKNOWLEDGE | STATUS_DRIVER | STATUS_FEATURES_OK,
        !before.device.activated,
        !may_configure_queues(after.device_status),
{
    assert((1u32 | 2 | 8 | 4) & (8u32 | (4u32 | 128)) != 8) by (bit_vector);
    assert(1u32 != (1u32 | 2 | 8 | 4) && (1u32 | 2) != (1u32 | 2 | 8 | 4) && (1u32 | 2 | 8) != (1u32
        | 2 | 8 | 4)) by (bit_vector);
}

} // verus!
