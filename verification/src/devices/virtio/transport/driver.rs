//! What the driver of the guest can rely on when it uses the memory mapped transport.

use vstd::prelude::*;

use crate::devices::virtio::device::VirtioDeviceType;
use crate::devices::virtio::transport::mmio::{
    features_acked, features_page, guest_wrote, irq_flag, law_address_halves, IrqType, MmioAction,
    MmioTransport, QueueConfig,
};
use crate::vstate::guest_memory::{law_bytes32_round_trip, le32};

verus! {

/// The queue that the driver selected.
pub open spec fn selected(t: MmioTransport) -> QueueConfig {
    t.device.queues@[t.queue_select as int]
}

/// Whether the driver can configure the selected queue: there is one, the features are agreed on
/// (8), and the driver neither runs (4) nor gave up (128).
pub open spec fn open_for_configuration(t: MmioTransport) -> bool {
    t.device_status & 0x8c == 8 && t.queue_select < t.device.queues@.len()
}

proof fn lemma_open(status: u32)
    ensures
        (8u32 | (4u32 | 128u32)) == 0x8c,
        (4u32 | 0u32) == 4,
        (2u32 | (128u32 | 64u32)) == 0xc2,
        (2u32 | (8u32 | 128u32 | 64u32)) == 0xca,
        (1u32 | 2u32) == 3,
        (1u32 | 2u32 | 8u32) == 11,
        (1u32 | 2u32 | 8u32 | 4u32) == 15,
{
    assert((8u32 | (4u32 | 128u32)) == 0x8c && (4u32 | 0u32) == 4 && (2u32 | (128u32 | 64u32))
        == 0xc2 && (2u32 | (8u32 | 128u32 | 64u32)) == 0xca && (1u32 | 2u32) == 3 && (1u32 | 2u32
        | 8u32) == 11 && (1u32 | 2u32 | 8u32 | 4u32) == 15) by (bit_vector);
}

/// Whether all queues but the selected one are as before, and the selected one keeps its largest
/// size.
pub open spec fn other_queues_stay(before: MmioTransport, after: MmioTransport) -> bool {
    &&& after.device.queues@.len() == before.device.queues@.len()
    &&& after.queue_select == before.queue_select
    &&& selected(after).max_size == selected(before).max_size
    &&& forall|i: int|
        0 <= i < before.device.queues@.len() && i != before.queue_select
            ==> #[trigger] after.device.queues@[i] == before.device.queues@[i]
}

/// The driver places the parts of a queue by writing the two halves of an address in either order:
/// the descriptor table at 0x80 and 0x84, the available ring at 0x90 and 0x94, the used ring at
/// 0xa0 and 0xa4. The part is then at that address, and the rest of the queue stays as it is.
pub proof fn law_queue_parts_are_where_the_driver_puts_them(
    before: MmioTransport,
    mid: MmioTransport,
    after: MmioTransport,
    register: u64,
    low: Seq<u8>,
    high: Seq<u8>,
    low_first: bool,
    actions: (MmioAction, MmioAction),
)
    requires
        register == 0x80 || register == 0x90 || register == 0xa0,
        low.len() == 4,
        high.len() == 4,
        open_for_configuration(before),
        low_first ==> guest_wrote(before, mid, register, low, actions.0) && guest_wrote(
            mid,
            after,
            (register + 4) as u64,
            high,
            actions.1,
        ),
        !low_first ==> guest_wrote(before, mid, (register + 4) as u64, high, actions.0)
            && guest_wrote(mid, after, register, low, actions.1),
    ensures
        ({
            let addr = le32(high) * 0x1_0000_0000 + le32(low);
            let (old_queue, queue) = (selected(before), selected(after));
            &&& other_queues_stay(before, after)
            &&& queue.size == old_queue.size
            &&& queue.ready == old_queue.ready
            &&& queue.desc_table_address == (if register == 0x80 {
                addr
            } else {
                old_queue.desc_table_address as int
            })
            &&& queue.avail_ring_address == (if register == 0x90 {
                addr
            } else {
                old_queue.avail_ring_address as int
            })
            &&& queue.used_ring_address == (if register == 0xa0 {
                addr
            } else {
                old_queue.used_ring_address as int
            })
        }),
{
    lemma_open(before.device_status);
    let q = selected(before);
    law_address_halves(q.desc_table_address, le32(high), le32(low));
    law_address_halves(q.avail_ring_address, le32(high), le32(low));
    law_address_halves(q.used_ring_address, le32(high), le32(low));
}

/// The driver sets the size of a queue at 0x38 and says at 0x44, with a one, that it is ready. The
/// rest of the queue stays as it is. It finds the largest size at 0x34, and at 0x44 whether the
/// queue is ready.
pub proof fn law_queue_size_and_readiness(
    before: MmioTransport,
    after: MmioTransport,
    register: u64,
    data: Seq<u8>,
    action: MmioAction,
    buffer: Seq<u8>,
)
    requires
        register == 0x38 || register == 0x44,
        data.len() == 4,
        buffer.len() == 4,
        open_for_configuration(before),
        guest_wrote(before, after, register, data, action),
    ensures
        other_queues_stay(before, after),
        selected(after).desc_table_address == selected(before).desc_table_address,
        selected(after).avail_ring_address == selected(before).avail_ring_address,
        selected(after).used_ring_address == selected(before).used_ring_address,
        selected(after).size == (if register == 0x38 {
            le32(data) as int % 0x1_0000
        } else {
            selected(before).size as int
        }),
        selected(after).ready == (if register == 0x44 {
            le32(data) == 1
        } else {
            selected(before).ready
        }),
        le32(after.read_into(0x34, buffer)) == selected(after).max_size,
        le32(after.read_into(0x44, buffer)) == (if selected(after).ready {
            1int
        } else {
            0
        }),
{
    lemma_open(before.device_status);
    let v = le32(data);
    assert((v & 0xffff) as u16 == v % 0x1_0000) by (bit_vector);
    law_bytes32_round_trip(selected(after).max_size as u32);
    law_bytes32_round_trip(1);
    law_bytes32_round_trip(0);
}

/// Once the driver runs or gave up, or before the features are agreed on, no write changes a
/// queue, except for the reset of the device.
pub proof fn law_queues_are_fixed_outside_configuration(
    before: MmioTransport,
    after: MmioTransport,
    register: u64,
    data: Seq<u8>,
    action: MmioAction,
)
    requires
        guest_wrote(before, after, register, data, action),
        before.device_status & 0x8c != 8,
        register != 0x70,
    ensures
        after.device.queues@ == before.device.queues@,
{
    lemma_open(before.device_status);
}

/// The driver selects a queue by writing its number to 0x30, which changes no queue. Where there
/// is no such queue, its largest size reads as zero.
pub proof fn law_queue_selection(
    before: MmioTransport,
    after: MmioTransport,
    data: Seq<u8>,
    action: MmioAction,
    buffer: Seq<u8>,
)
    requires
        data.len() == 4,
        buffer.len() == 4,
        guest_wrote(before, after, 0x30, data, action),
    ensures
        after.queue_select == le32(data),
        after.device.queues@ == before.device.queues@,
        le32(after.read_into(0x34, buffer)) == (if le32(data) < before.device.queues@.len() {
            before.device.queues@[le32(data) as int].max_size as int
        } else {
            0
        }),
{
    law_bytes32_round_trip(selected(after).max_size as u32);
    law_bytes32_round_trip(0);
}

/// The driver recognises a device by what it reads at 0 (the letters "virt"), at 4 (version two of
/// the layout), at 8 (the type of the device) and at 12 (no vendor).
pub proof fn law_devices_identify_themselves(t: MmioTransport, buffer: Seq<u8>)
    requires
        buffer.len() == 4,
    ensures
        t.read_into(0, buffer) =~= seq![0x76u8, 0x69, 0x72, 0x74],
        t.read_into(4, buffer) =~= seq![2u8, 0, 0, 0],
        t.read_into(8, buffer) =~= seq![
            match t.device.device_type {
                VirtioDeviceType::Net => 1u8,
                VirtioDeviceType::Block => 2,
                VirtioDeviceType::Rng => 4,
                VirtioDeviceType::Balloon => 5,
                VirtioDeviceType::Vsock => 19,
                VirtioDeviceType::Mem => 24,
                VirtioDeviceType::Pmem => 27,
            },
            0,
            0,
            0,
        ],
        t.read_into(12, buffer) =~= seq![0u8, 0, 0, 0],
{
}

/// The driver reads the features on offer at 0x10, one half at a time: the lower half after it
/// wrote zero to 0x14, the upper half after it wrote one, in which the lowest bit is always set.
pub proof fn law_offered_features_are_read_in_halves(
    before: MmioTransport,
    after: MmioTransport,
    data: Seq<u8>,
    action: MmioAction,
    buffer: Seq<u8>,
)
    requires
        data.len() == 4,
        buffer.len() == 4,
        guest_wrote(before, after, 0x14, data, action),
    ensures
        ({
            let read = le32(after.read_into(0x10, buffer));
            let avail = before.device.avail_features;
            let upper = avail as int / 0x1_0000_0000;
            &&& le32(data) == 0 ==> read == avail as int % 0x1_0000_0000
            &&& le32(data) == 1 ==> read == upper + (if upper % 2 == 0 {
                1int
            } else {
                0
            })
            &&& le32(data) > 1 ==> read == 0
        }),
{
    let avail = before.device.avail_features;
    law_bytes32_round_trip(0);
    law_bytes32_round_trip(features_page(avail, 0));
    law_bytes32_round_trip(features_page(avail, 1) | 0x1);
    assert((avail & 0xffff_ffff) as u32 == avail % 0x1_0000_0000 && ((avail >> 32) as u32 | 0x1)
        == (if (avail / 0x1_0000_0000) % 2 == 0 {
        avail / 0x1_0000_0000 + 1
    } else {
        (avail / 0x1_0000_0000) as int
    })) by (bit_vector);
}

/// Whether a feature is in a set of features.
pub open spec fn has_feature(features: u64, n: u32) -> bool {
    features & (1u64 << n) != 0
}

/// The driver accepts features by writing to 0x20, one half at a time, as selected at 0x24. While
/// it may do so, it accepts the features of that half that it names and that are on offer, and
/// keeps those that it accepted before. Afterwards a write changes nothing.
pub proof fn law_features_named_and_offered_are_accepted(
    before: MmioTransport,
    after: MmioTransport,
    data: Seq<u8>,
    action: MmioAction,
    m: u32,
)
    requires
        data.len() == 4,
        m < 32,
        guest_wrote(before, after, 0x20, data, action),
    ensures
        ({
            let (old_set, set) = (before.device.acked_features, after.device.acked_features);
            let avail = before.device.avail_features;
            let named = le32(data) & (1u32 << m) != 0;
            let half = before.acked_features_select;
            let may = before.device_status & 0xca == 2;
            let upper = (m + 32) as u32;
            &&& has_feature(set, m) <==> has_feature(old_set, m) || may && half == 0 && named
                && has_feature(avail, m)
            &&& has_feature(set, upper) <==> has_feature(old_set, upper) || may && half == 1
                && named && has_feature(avail, upper)
        }),
{
    lemma_open(before.device_status);
    let (acked, avail, v) = (before.device.acked_features, before.device.avail_features, le32(data));
    let upper = (m + 32) as u32;
    let lower_set = features_acked(avail, acked, 0, v);
    let upper_set = features_acked(avail, acked, 1, v);
    let bits = v as u64;
    assert(((acked | (bits & avail)) & (1u64 << m) != 0) == (acked & (1u64 << m) != 0 || (v & (1u32
        << m) != 0 && avail & (1u64 << m) != 0)) && ((acked | (bits & avail)) & (1u64 << upper)
        != 0) == (acked & (1u64 << upper) != 0) && ((acked | ((bits << 32) & avail)) & (1u64
        << upper) != 0) == (acked & (1u64 << upper) != 0 || (v & (1u32 << m) != 0 && avail & (1u64
        << upper) != 0)) && ((acked | ((bits << 32) & avail)) & (1u64 << m) != 0) == (acked & (1u64
        << m) != 0) && acked | (0u64 & avail) == acked) by (bit_vector)
        requires
            m < 32,
            upper == m + 32,
            bits == v as u64,
    ;
}

/// The driver reads at 0x60 which interrupts it has not acknowledged, unless another process
/// implements the device, and acknowledges those that it names at 0x64 once it runs.
pub proof fn law_interrupts_are_read_and_acknowledged(
    before: MmioTransport,
    after: MmioTransport,
    data: Seq<u8>,
    action: MmioAction,
    buffer: Seq<u8>,
    m: u32,
)
    requires
        data.len() == 4,
        buffer.len() == 4,
        m < 32,
        before.device_status & 4 == 4,
        guest_wrote(before, after, 0x64, data, action),
    ensures
        !before.is_vhost_user ==> le32(before.read_into(0x60, buffer))
            == before.interrupt.irq_status,
        after.interrupt.irq_status & (1u32 << m) != 0 <==> before.interrupt.irq_status & (1u32 << m)
            != 0 && le32(data) & (1u32 << m) == 0,
{
    lemma_open(before.device_status);
    law_bytes32_round_trip(before.interrupt.irq_status);
    let (irqs, v) = (before.interrupt.irq_status, le32(data));
    assert((irqs & !v) & (1u32 << m) != 0 <==> irqs & (1u32 << m) != 0 && v & (1u32 << m) == 0)
        by (bit_vector)
        requires
            m < 32,
    ;
}

/// The driver takes a device into use by writing 1, 3, 11 and 15 to 0x70, in this order. Any other
/// status that is not zero and does not hold 128 is ignored. The last step asks for the device to
/// be activated, if it is not active yet, and no other write does. The status can be read back.
pub proof fn law_initialisation_goes_step_by_step(
    before: MmioTransport,
    after: MmioTransport,
    data: Seq<u8>,
    action: MmioAction,
    buffer: Seq<u8>,
)
    requires
        data.len() == 4,
        buffer.len() == 4,
        le32(data) != 0,
        le32(data) & 128 == 0,
        guest_wrote(before, after, 0x70, data, action),
    ensures
        ({
            let (from, to) = (before.device_status, le32(data));
            let next = from == 0 && to == 1 || from == 1 && to == 3 || from == 3 && to == 11 || from
                == 11 && to == 15;
            &&& after.device_status == (if next {
                to
            } else {
                from
            })
            &&& action == MmioAction::Activate <==> next && to == 15 && !before.device.activated
            &&& after.device == before.device
            &&& le32(after.read_into(0x70, buffer)) == after.device_status
        }),
{
    lemma_open(before.device_status);
    law_bytes32_round_trip(after.device_status);
}

/// A write of zero to 0x70 starts over: an active device is asked to reset itself, and a device
/// that is not active and did not fail is as new, with no interrupt and no configured queue.
pub proof fn law_zero_status_starts_over(
    before: MmioTransport,
    after: MmioTransport,
    data: Seq<u8>,
    action: MmioAction,
    i: int,
)
    requires
        data.len() == 4,
        le32(data) == 0,
        guest_wrote(before, after, 0x70, data, action),
        0 <= i < before.device.queues@.len(),
    ensures
        before.device.activated ==> action == MmioAction::ResetDevice && after == before,
        !before.device.activated && before.device_status & 128 != 0 ==> after == before,
        !before.device.activated && before.device_status & 128 == 0 ==> {
            let queue = after.device.queues@[i];
            &&& after.device_status == 0
            &&& after.interrupt.irq_status == 0
            &&& after.queue_select == 0
            &&& after.features_select == 0
            &&& after.acked_features_select == 0
            &&& after.device.queues@.len() == before.device.queues@.len()
            &&& queue.max_size == before.device.queues@[i].max_size
            &&& queue.size == queue.max_size
            &&& !queue.ready
            &&& queue.desc_table_address == 0
            &&& queue.avail_ring_address == 0
            &&& queue.used_ring_address == 0
        },
{
    assert(0u32 & 128 == 0) by (bit_vector);
}

/// The configuration space of the device starts at 0x100: what is read from there on are its
/// bytes, and a write there goes to the same place of the device once there is a driver (2) that
/// did not give up (128) for a device that needs no reset (64).
pub proof fn law_configuration_space_starts_behind_the_registers(
    before: MmioTransport,
    after: MmioTransport,
    at: u64,
    data: Seq<u8>,
    action: MmioAction,
    buffer: Seq<u8>,
)
    requires
        at + data.len() <= 0xf00,
        at < 0xf00,
        at + buffer.len() <= before.device.config@.len(),
        guest_wrote(before, after, (0x100 + at) as u64, data, action),
    ensures
        before.read_into((0x100 + at) as u64, buffer) =~= before.device.config@.subrange(
            at as int,
            at + buffer.len(),
        ),
        after == before,
        action == (if before.device_status & 0xc2 == 2 {
            MmioAction::WriteConfig(at)
        } else {
            MmioAction::Nothing
        }),
{
    lemma_open(before.device_status);
}

/// The driver tells the two sources of interrupts apart: queues raise the lowest bit, a change of the
/// configuration the one above it.
pub proof fn law_sources_of_interrupts(irq_type: IrqType)
    ensures
        irq_flag(irq_type) == 1 <==> irq_type == IrqType::Vring,
        irq_flag(irq_type) == 2 <==> irq_type == IrqType::Config,
{
}

} // verus!
