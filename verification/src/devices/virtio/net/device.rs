//! The network device model.

use vstd::prelude::*;

use crate::devices::virtio::device::{
    feature, has_feature, ActivateError, VIRTIO_F_VERSION_1, VIRTIO_RING_F_EVENT_IDX,
};
use crate::devices::virtio::iovec::{
    backed, load_error, pieces_of, total, IoVec, IoVecBuffer, IoVecError, ParsedDescriptorChain,
};
use crate::devices::virtio::net::rx_buffers::{
    bytes_in, pieces_in, refused, spread, AddRxBufferError, RxBuffers, NET_QUEUE_MAX_SIZE,
    NUM_BUFFERS_OFFSET, VNET_HDR_LEN,
};
use crate::devices::virtio::net::tap::{if_name_as_str, unterminated, TapError};
use crate::devices::virtio::queue::{
    empty_entries, ChainView, InvalidAvailIdx, Queue, UsedElement,
};
use crate::rate_limiter::{
    consumed_op, grants_op, restored_op, updated_bucket, BucketUpdate, RateLimiter,
};
use crate::vstate::guest_memory::{bytes16, to_le16, GuestMemory};

verus! {

/// Feature bit: the device takes frames with partial checksums.
pub const VIRTIO_NET_F_CSUM: u32 = 0;

/// Feature bit: the driver takes frames with partial checksums.
pub const VIRTIO_NET_F_GUEST_CSUM: u32 = 1;

/// Feature bit: the device advertises the size of its frames.
pub const VIRTIO_NET_F_MTU: u32 = 3;

/// Feature bit: the device has an address.
pub const VIRTIO_NET_F_MAC: u32 = 5;

/// Feature bit: the driver takes large TCP segments over IPv4.
pub const VIRTIO_NET_F_GUEST_TSO4: u32 = 7;

/// Feature bit: the driver takes large TCP segments over IPv6.
pub const VIRTIO_NET_F_GUEST_TSO6: u32 = 8;

/// Feature bit: the driver takes large UDP datagrams.
pub const VIRTIO_NET_F_GUEST_UFO: u32 = 10;

/// Feature bit: the device takes large TCP segments over IPv4.
pub const VIRTIO_NET_F_HOST_TSO4: u32 = 11;

/// Feature bit: the device takes large TCP segments over IPv6.
pub const VIRTIO_NET_F_HOST_TSO6: u32 = 12;

/// Feature bit: the device takes large UDP datagrams.
pub const VIRTIO_NET_F_HOST_UFO: u32 = 14;

/// Feature bit: frames may be spread over several chains of buffers.
pub const VIRTIO_NET_F_MRG_RXBUF: u32 = 15;

/// Offload flag of the host interface: checksums.
pub const TUN_F_CSUM: u32 = 1;

/// Offload flag of the host interface: large TCP segments over IPv4.
pub const TUN_F_TSO4: u32 = 2;

/// Offload flag of the host interface: large TCP segments over IPv6.
pub const TUN_F_TSO6: u32 = 4;

/// Offload flag of the host interface: large UDP datagrams.
pub const TUN_F_UFO: u32 = 16;

/// The most bytes of a frame with its virtio header.
pub const MAX_BUFFER_SIZE: usize = 65562;

/// The least size of a buffer where frames are neither large nor spread.
pub const MIN_PLAIN_BUFFER_SIZE: u32 = 1526;

/// The most bytes of the headers of a frame that are looked at.
pub const FRAME_HEADER_MAX_LEN: usize = 42;

/// Number of bytes of the Ethernet header of a frame.
pub const ETHERNET_HEADER_LEN: usize = 14;

/// Error number: there is nothing to be read now.
pub const EAGAIN: i32 = 11;

/// The least size that the device may advertise for its frames.
pub const MIN_MTU: u16 = 68;

/// Why an operation on a network device failed.
#[derive(Debug)]
pub enum NetError {
    /// The host interface cannot be opened.
    TapOpen(TapError),
    /// The length of the header cannot be set on the host interface.
    TapSetVnetHdrSize(TapError),
    /// A frame has no complete virtio header.
    VnetHeaderMissing,
    /// The size of frames is not acceptable.
    InvalidMtu(u16),
}

/// Why work on a network device ended.
#[derive(Debug, Clone, Copy, PartialEq, Eq, Structural)]
pub enum DeviceError {
    /// The host interface cannot be read.
    FailedReadTap,
    /// The driver made too many chains available.
    InvalidAvailIdx(InvalidAvailIdx),
}

/// Length of the virtio header of a frame.
pub fn vnet_hdr_len() -> (r: usize)
    ensures
        r == VNET_HDR_LEN,
{
    VNET_HDR_LEN
}

/// The most bytes of all headers of a frame that are looked at.
pub fn frame_hdr_len() -> (r: usize)
    ensures
        r == VNET_HDR_LEN + FRAME_HEADER_MAX_LEN,
{
    vnet_hdr_len() + FRAME_HEADER_MAX_LEN
}

/// The frame behind its virtio header.
pub fn frame_bytes_from_buf(buf: &[u8]) -> (r: Result<&[u8], NetError>)
    ensures
        buf@.len() < VNET_HDR_LEN ==> r is Err && r->Err_0 == NetError::VnetHeaderMissing,
        buf@.len() >= VNET_HDR_LEN ==> r is Ok && r->Ok_0@ == buf@.skip(VNET_HDR_LEN as int),
{
    if buf.len() < vnet_hdr_len() {
        Err(NetError::VnetHeaderMissing)
    } else {
        let frame = vstd::slice::slice_subrange(buf, vnet_hdr_len(), buf.len());
        assert(frame@ =~= buf@.skip(VNET_HDR_LEN as int));
        Ok(frame)
    }
}

/// The frame behind its virtio header, to be written.
pub fn frame_bytes_from_buf_mut(buf: &mut [u8]) -> (r: Result<&mut [u8], NetError>)
    ensures
        old(buf)@.len() < VNET_HDR_LEN ==> r is Err && r->Err_0 == NetError::VnetHeaderMissing
            && final(buf)@ == old(buf)@,
        old(buf)@.len() >= VNET_HDR_LEN ==> {
            &&& r is Ok
            &&& r->Ok_0@ == old(buf)@.skip(VNET_HDR_LEN as int)
            &&& final(buf)@ == old(buf)@.take(VNET_HDR_LEN as int) + final(r->Ok_0)@
        },
{
    if buf.len() < vnet_hdr_len() {
        Err(NetError::VnetHeaderMissing)
    } else {
        let (_, frame) = buf.split_at_mut(vnet_hdr_len());
        Ok(frame)
    }
}

/// Clears the virtio header of a frame.
pub fn init_vnet_hdr(buf: &mut Vec<u8>)
    requires
        old(buf)@.len() >= VNET_HDR_LEN,
    ensures
        final(buf)@.len() == old(buf)@.len(),
        forall|i: int|
            0 <= i < final(buf)@.len() ==> #[trigger] final(buf)@[i] == if i < VNET_HDR_LEN {
                0u8
            } else {
                old(buf)@[i]
            },
{
    let mut i: usize = 0;
    while i < vnet_hdr_len()
        invariant
            i <= VNET_HDR_LEN,
            buf@.len() == old(buf)@.len(),
            buf@.len() >= VNET_HDR_LEN,
            forall|k: int|
                0 <= k < buf@.len() ==> #[trigger] buf@[k] == if k < i {
                    0u8
                } else {
                    old(buf)@[k]
                },
        decreases VNET_HDR_LEN - i,
    {
        buf.set(i, 0);
        i = i + 1;
    }
}

/// Address of a network interface.
#[derive(Debug, Clone, Copy, PartialEq, Eq, Structural)]
pub struct MacAddr {
    /// First byte.
    pub b0: u8,
    /// Second byte.
    pub b1: u8,
    /// Third byte.
    pub b2: u8,
    /// Fourth byte.
    pub b3: u8,
    /// Fifth byte.
    pub b4: u8,
    /// Sixth byte.
    pub b5: u8,
}

impl MacAddr {
    /// The bytes.
    pub open spec fn bytes(self) -> Seq<u8> {
        seq![self.b0, self.b1, self.b2, self.b3, self.b4, self.b5]
    }
}

/// What the guest sees of the configuration.
#[derive(Debug, Clone, Copy, PartialEq, Eq, Structural)]
pub struct ConfigSpace {
    /// Address of the interface.
    pub guest_mac: MacAddr,
    /// Size of frames.
    pub mtu: u16,
}

impl ConfigSpace {
    /// The bytes. Between the address and the size of frames are fields that are not advertised.
    pub open spec fn bytes(self) -> Seq<u8> {
        self.guest_mac.bytes() + seq![0u8, 0u8, 0u8, 0u8] + bytes16(self.mtu)
    }
}

/// The features that every network device offers.
pub open spec fn base_features() -> u64 {
    (1u64 << 1) | (1u64 << 0) | (1u64 << 7) | (1u64 << 8) | (1u64 << 10) | (1u64 << 11) | (1u64
        << 12) | (1u64 << 14) | (1u64 << 32) | (1u64 << 15) | (1u64 << 29)
}

/// The features that a network device offers.
pub open spec fn offered(mtu: bool, mac: bool) -> u64 {
    base_features() | (if mtu {
        1u64 << 3
    } else {
        0u64
    }) | (if mac {
        1u64 << 5
    } else {
        0u64
    })
}

/// The size of frames and the address are offered exactly when they were given.
pub proof fn law_features_as_given(mtu: bool, mac: bool)
    ensures
        feature(offered(mtu, mac), VIRTIO_NET_F_MTU) == mtu,
        feature(offered(mtu, mac), VIRTIO_NET_F_MAC) == mac,
        feature(offered(mtu, mac), VIRTIO_F_VERSION_1),
        feature(offered(mtu, mac), VIRTIO_RING_F_EVENT_IDX),
        feature(offered(mtu, mac), VIRTIO_NET_F_MRG_RXBUF),
{
    let f = offered(mtu, mac);
    let m = if mtu {
        1u64 << 3
    } else {
        0u64
    };
    let a = if mac {
        1u64 << 5
    } else {
        0u64
    };
    assert(((f & (1u64 << 3) != 0) == (m != 0)) && ((f & (1u64 << 5) != 0) == (a != 0)) && f & (1u64
        << 32) != 0 && f & (1u64 << 29) != 0 && f & (1u64 << 15) != 0 && 1u64 << 3 != 0 && 1u64 << 5
        != 0) by (bit_vector)
        requires
            f == (1u64 << 1) | (1u64 << 0) | (1u64 << 7) | (1u64 << 8) | (1u64 << 10) | (1u64 << 11)
                | (1u64 << 12) | (1u64 << 14) | (1u64 << 32) | (1u64 << 15) | (1u64 << 29) | m | a,
            m == 0 || m == 1u64 << 3,
            a == 0 || a == 1u64 << 5,
    ;
}

/// A virtio network device.
#[derive(Debug)]
pub struct Net {
    /// Identifier of the device.
    pub id: String,
    /// Name of the host interface, with zeros behind it.
    pub if_name: Vec<u8>,
    /// Features on offer.
    pub avail_features: u64,
    /// Features that the driver accepted.
    pub acked_features: u64,
    /// Queue of buffers for frames that the guest receives.
    pub rx_queue: Queue,
    /// Queue of frames that the guest sends.
    pub tx_queue: Queue,
    /// Limits on what the guest receives.
    pub rx_rate_limiter: RateLimiter,
    /// Limits on what the guest sends.
    pub tx_rate_limiter: RateLimiter,
    /// What the guest sees of the configuration.
    pub config_space: ConfigSpace,
    /// Address of the interface, if there is a fixed one.
    pub guest_mac: Option<MacAddr>,
    /// Whether the device is active.
    pub activated: bool,
    /// Address of the metadata service on this interface.
    pub mmds_ipv4: Option<u32>,
    /// The frame that is being sent.
    pub tx_buffer: IoVecBuffer,
    /// Memory for frames that the guest receives.
    pub rx_buffer: RxBuffers,
}

/// The flags of the host interface for what the driver takes.
pub open spec fn tap_features(features: u64) -> u32 {
    (if feature(features, VIRTIO_NET_F_GUEST_CSUM) {
        TUN_F_CSUM
    } else {
        0
    }) | (if feature(features, VIRTIO_NET_F_GUEST_UFO) {
        TUN_F_UFO
    } else {
        0
    }) | (if feature(features, VIRTIO_NET_F_GUEST_TSO4) {
        TUN_F_TSO4
    } else {
        0
    }) | (if feature(features, VIRTIO_NET_F_GUEST_TSO6) {
        TUN_F_TSO6
    } else {
        0
    })
}

// A flag where the driver accepted a feature.
fn flag_if(features: u64, bit: u32, flag: u32) -> (r: u32)
    requires
        bit < 64,
    ensures
        r == (if feature(features, bit) {
            flag
        } else {
            0
        }),
{
    if has_feature(features, bit) {
        flag
    } else {
        0
    }
}

/// The least size of a chain of buffers for what the driver accepted.
pub open spec fn min_rx_buffer_size(features: u64) -> u32 {
    if feature(features, VIRTIO_NET_F_MRG_RXBUF) {
        VNET_HDR_LEN as u32
    } else if feature(features, VIRTIO_NET_F_GUEST_TSO4) || feature(
        features,
        VIRTIO_NET_F_GUEST_TSO6,
    ) || feature(features, VIRTIO_NET_F_GUEST_UFO) {
        MAX_BUFFER_SIZE as u32
    } else {
        MIN_PLAIN_BUFFER_SIZE
    }
}

/// What comes of parsing chains of buffers for frames that the guest receives.
pub struct RxParse {
    /// Chains that are taken.
    pub taken: nat,
    /// Entries of chains that cannot be used.
    pub staged: Seq<UsedElement>,
    /// Chains that can be used.
    pub parsed: Seq<ParsedDescriptorChain>,
    /// The memory of all chains that can be used.
    pub vecs: Seq<IoVec>,
}

/// Parsing of chains of buffers: a chain that cannot be used is given back unused, and parsing
/// stops where no more pieces of memory can be held.
pub open spec fn rx_parse(
    chains: Seq<ChainView>,
    mem: GuestMemory,
    vecs: Seq<IoVec>,
    min: u32,
) -> RxParse
    decreases chains.len(),
{
    if chains.len() == 0 {
        RxParse { taken: 0, staged: seq![], parsed: seq![], vecs }
    } else {
        let c = chains[0];
        let refusal = refused(vecs, total(vecs), c.descs, mem);
        if refusal == Some(IoVecError::IovDequeOverflow) {
            RxParse { taken: 0, staged: seq![], parsed: seq![], vecs }
        } else if refusal is Some || total(pieces_of(c.descs)) < min {
            let rest = rx_parse(chains.skip(1), mem, vecs, min);
            RxParse {
                taken: rest.taken + 1,
                staged: seq![UsedElement { id: c.index, len: 0 }] + rest.staged,
                ..rest
            }
        } else {
            let rest = rx_parse(chains.skip(1), mem, vecs + pieces_of(c.descs), min);
            RxParse {
                taken: rest.taken + 1,
                parsed: seq![
                    ParsedDescriptorChain {
                        head_index: c.index,
                        length: total(pieces_of(c.descs)) as u32,
                        nr_iovecs: c.descs.len() as u16,
                    },
                ] + rest.parsed,
                ..rest
            }
        }
    }
}

/// What comes of looking for the next frame to send.
pub enum TxOutcome {
    /// There is none.
    Exhausted,
    /// There is one that the limiter does not let pass.
    Throttled,
    /// There is one.
    Frame(ChainView),
}

/// What is done in looking for the next frame to send.
pub struct TxScan {
    /// Chains that are taken.
    pub taken: nat,
    /// Heads of the chains that are given back, in order.
    pub used: Seq<u16>,
    /// The limiter.
    pub limiter: RateLimiter,
    /// What comes of it.
    pub outcome: TxOutcome,
}

/// The search for the next frame to send: chains that cannot be read, that are too long, or that
/// have no complete header are given back.
pub open spec fn tx_scan(chains: Seq<ChainView>, mem: GuestMemory, limiter: RateLimiter) -> TxScan
    decreases chains.len(),
{
    if chains.len() == 0 {
        TxScan { taken: 0, used: seq![], limiter, outcome: TxOutcome::Exhausted }
    } else {
        let c = chains[0];
        let len = total(pieces_of(c.descs));
        if load_error(c.descs, mem, 0) is Some || len > MAX_BUFFER_SIZE {
            let rest = tx_scan(chains.skip(1), mem, limiter);
            TxScan { taken: rest.taken + 1, used: seq![c.index] + rest.used, ..rest }
        } else if !grants_op(limiter, len as u64) {
            TxScan {
                taken: 0,
                used: seq![],
                limiter: consumed_op(limiter, len as u64),
                outcome: TxOutcome::Throttled,
            }
        } else if len < VNET_HDR_LEN {
            let rest = tx_scan(chains.skip(1), mem, consumed_op(limiter, len as u64));
            TxScan { taken: rest.taken + 1, used: seq![c.index] + rest.used, ..rest }
        } else {
            TxScan {
                taken: 1,
                used: seq![],
                limiter: consumed_op(limiter, len as u64),
                outcome: TxOutcome::Frame(c),
            }
        }
    }
}

/// What was found in looking for the next frame to send.
#[derive(Debug)]
pub enum TxStep {
    /// There is no frame.
    Exhausted,
    /// There is a frame that the limiter does not let pass.
    Throttled,
    /// There is a frame.
    Frame {
        /// The headers of the frame, as far as they are looked at.
        headers: Vec<u8>,
        /// Whether the frame claims to come from another interface.
        spoofed: bool,
    },
}

/// Where a run of sending frames is.
#[derive(Debug, Clone, Copy, PartialEq, Eq, Structural)]
pub struct TxRun {
    /// Head of the chain of the frame that is being sent.
    pub pending: Option<u16>,
    /// Whether frames are to be received afterwards, because the metadata service took one.
    pub process_rx: bool,
}

/// Whether the headers of a frame name another sender.
pub open spec fn is_spoofed(headers: Seq<u8>, guest_mac: Option<MacAddr>) -> bool {
    match guest_mac {
        Some(mac) => headers.len() >= ETHERNET_HEADER_LEN && headers.subrange(6, 12) != mac.bytes(),
        None => false,
    }
}

fn claims_other_sender(headers: &Vec<u8>, guest_mac: Option<MacAddr>) -> (r: bool)
    ensures
        r == is_spoofed(headers@, guest_mac),
{
    match guest_mac {
        Some(mac) => {
            if headers.len() < ETHERNET_HEADER_LEN {
                return false;
            }
            let same: bool = headers[6] == mac.b0 && headers[7] == mac.b1 && headers[8] == mac.b2
                && headers[9] == mac.b3 && headers[10] == mac.b4 && headers[11] == mac.b5;
            proof {
                let src = headers@.subrange(6, 12);
                if same {
                    assert(src =~= mac.bytes());
                } else {
                    assert(src[0] == headers@[6] && src[1] == headers@[7] && src[2] == headers@[8]
                        && src[3] == headers@[9] && src[4] == headers@[10] && src[5]
                        == headers@[11]);
                    assert(mac.bytes()[0] == mac.b0 && mac.bytes()[1] == mac.b1 && mac.bytes()[2]
                        == mac.b2 && mac.bytes()[3] == mac.b3 && mac.bytes()[4] == mac.b4
                        && mac.bytes()[5] == mac.b5);
                }
            }
            !same
        },
        None => false,
    }
}

/// What is due when a run of sending frames ends.
#[derive(Debug, Clone, Copy, PartialEq, Eq, Structural)]
pub struct TxFinish {
    /// Whether the guest is to be interrupted.
    pub interrupt: bool,
    /// Whether frames are to be received.
    pub process_rx: bool,
}

/// What came of trying to receive a frame.
#[derive(Debug, Clone, Copy, PartialEq, Eq, Structural)]
pub enum RxEvent {
    /// There is not enough memory for a frame.
    NoRoom,
    /// A frame of so many bytes was received.
    Frame(u32),
    /// The host interface gave an error number.
    TapError(i32),
    /// The driver made too many chains available.
    Broken(InvalidAvailIdx),
}

/// What an event of the device calls for.
#[derive(Debug, Clone, Copy, PartialEq, Eq, Structural)]
pub enum NetEventAction {
    /// The event could not be read.
    ReportFailure,
    /// Nothing: a limiter waits for its timer.
    Throttled,
    /// Nothing: a received frame is still held back.
    Held,
    /// Frames are received.
    Receive,
    /// Frames are sent.
    Transmit,
}

/// How receiving goes on.
#[derive(Debug, Clone, Copy, PartialEq, Eq, Structural)]
pub enum RxNext {
    /// Try to receive another frame.
    Again,
    /// Let the guest know of what was received.
    Finish,
    /// Give up.
    Fail(DeviceError),
}

/// A frame behind a virtio header that is all zero.
pub open spec fn with_header(frame: Seq<u8>) -> Seq<u8> {
    Seq::new(VNET_HDR_LEN as nat, |i: int| 0u8) + frame
}

/// Whether a frame was put into guest memory and accounted for.
pub open spec fn received(
    before: Net,
    after: Net,
    mem: GuestMemory,
    mid: GuestMemory,
    last: GuestMemory,
    data: Seq<u8>,
) -> bool {
    let chains = before.rx_buffer.parsed_descriptors@;
    let entries = spread(chains, data.len() as int);
    let n = entries.len() as int;
    &&& before.rx_buffer.iovec.filled(mem, mid, data, 0, data.len() as int)
    &&& before.rx_buffer.iovec.filled(mid, last, bytes16(n as u16), NUM_BUFFERS_OFFSET as int, 2)
    &&& after.rx_queue.same_avail(before.rx_queue)
    &&& after.rx_queue.used == before.rx_queue.used
    &&& after.rx_queue.published == before.rx_queue.published
    &&& after.rx_queue.staged@ == before.rx_queue.staged@ + entries
    &&& after.rx_buffer.used_bytes == data.len()
    &&& after.rx_buffer.used_descriptors == before.rx_buffer.used_descriptors + n
    &&& after.rx_buffer.min_buffer_size == before.rx_buffer.min_buffer_size
    &&& after.rx_buffer.parsed_descriptors@ == chains.skip(n)
    &&& after.rx_buffer.iovec.vecs@ == before.rx_buffer.iovec.vecs@.skip(pieces_in(chains, n))
    &&& after.rx_buffer.iovec.len == before.rx_buffer.iovec.len - bytes_in(chains, n)
}

impl Net {
    /// The memory for received frames is that of chains of the queue, and both queues are well
    /// formed.
    pub open spec fn wf(self) -> bool {
        &&& self.rx_buffer.wf()
        &&& self.rx_buffer.serves(self.rx_queue)
        &&& self.rx_buffer.parsed_descriptors@.len() <= self.rx_queue.next_avail
        &&& self.tx_queue.wf()
    }

    /// The number of used entries that the guest does not know of stays within its type, whatever
    /// is still parsed or received.
    pub open spec fn can_count(self) -> bool {
        self.rx_buffer.used_descriptors + self.rx_buffer.parsed_descriptors@.len()
            + self.countable() <= u16::MAX
    }

    /// The number of chains that wait and can be taken. None can be taken from a queue that has more
    /// of them than its size.
    pub open spec fn countable(self) -> int {
        if self.rx_queue.pending() <= self.rx_queue.size {
            self.rx_queue.pending()
        } else {
            0
        }
    }

    /// Whether two devices differ in what concerns received frames alone.
    pub open spec fn same_but_rx(self, other: Net) -> bool {
        self == (Net {
            rx_queue: self.rx_queue,
            rx_buffer: self.rx_buffer,
            ..other
        })
    }

    /// Creates a device over a host interface.
    pub fn new_with_tap(
        id: String,
        if_name: Vec<u8>,
        guest_mac: Option<MacAddr>,
        rx_rate_limiter: RateLimiter,
        tx_rate_limiter: RateLimiter,
        mtu: Option<u16>,
    ) -> (r: Result<Net, NetError>)
        ensures
            match r {
                Err(e) => mtu matches Some(m) && m < MIN_MTU && e == NetError::InvalidMtu(m),
                Ok(net) => {
                    &&& mtu matches Some(m) ==> m >= MIN_MTU && net.config_space.mtu == m
                    &&& mtu is None ==> net.config_space.mtu == 0
                    &&& net.wf()
                    &&& net.id == id
                    &&& net.if_name == if_name
                    &&& net.avail_features == offered(mtu is Some, guest_mac is Some)
                    &&& net.acked_features == 0
                    &&& net.guest_mac == guest_mac
                    &&& guest_mac matches Some(mac) ==> net.config_space.guest_mac == mac
                    &&& guest_mac is None ==> net.config_space.guest_mac == (MacAddr {
                        b0: 0,
                        b1: 0,
                        b2: 0,
                        b3: 0,
                        b4: 0,
                        b5: 0,
                    })
                    &&& net.rx_rate_limiter == rx_rate_limiter
                    &&& net.tx_rate_limiter == tx_rate_limiter
                    &&& !net.activated
                    &&& net.mmds_ipv4 is None
                    &&& net.rx_queue.is_fresh(NET_QUEUE_MAX_SIZE)
                    &&& net.tx_queue.is_fresh(NET_QUEUE_MAX_SIZE)
                    &&& net.rx_buffer.is_unused()
                    &&& net.tx_buffer.vecs@.len() == 0
                    &&& net.tx_buffer.len == 0
                    &&& net.advertised_mtu() == mtu
                },
            },
    {
        let mut avail_features: u64 = (1u64 << VIRTIO_NET_F_GUEST_CSUM) | (1u64
            << VIRTIO_NET_F_CSUM) | (1u64 << VIRTIO_NET_F_GUEST_TSO4) | (1u64
            << VIRTIO_NET_F_GUEST_TSO6) | (1u64 << VIRTIO_NET_F_GUEST_UFO) | (1u64
            << VIRTIO_NET_F_HOST_TSO4) | (1u64 << VIRTIO_NET_F_HOST_TSO6) | (1u64
            << VIRTIO_NET_F_HOST_UFO) | (1u64 << VIRTIO_F_VERSION_1) | (1u64
            << VIRTIO_NET_F_MRG_RXBUF) | (1u64 << VIRTIO_RING_F_EVENT_IDX);
        assert(avail_features == base_features());
        let zero = MacAddr { b0: 0, b1: 0, b2: 0, b3: 0, b4: 0, b5: 0 };
        let mut config_space = ConfigSpace { guest_mac: zero, mtu: 0 };
        if let Some(mtu) = mtu {
            if mtu < MIN_MTU {
                return Err(NetError::InvalidMtu(mtu));
            }
            avail_features = avail_features | (1u64 << VIRTIO_NET_F_MTU);
            config_space.mtu = mtu;
        }
        if let Some(mac) = guest_mac {
            config_space.guest_mac = mac;
            avail_features = avail_features | (1u64 << VIRTIO_NET_F_MAC);
        }
        proof {
            assert forall|x: u64| x | 0u64 == x by {
                assert(x | 0u64 == x) by (bit_vector);
            }
            assert(avail_features == offered(mtu is Some, guest_mac is Some));
            law_features_as_given(mtu is Some, guest_mac is Some);
        }
        Ok(
            Net {
                id,
                if_name,
                avail_features,
                acked_features: 0,
                rx_queue: Queue::new(NET_QUEUE_MAX_SIZE),
                tx_queue: Queue::new(NET_QUEUE_MAX_SIZE),
                rx_rate_limiter,
                tx_rate_limiter,
                config_space,
                guest_mac,
                activated: false,
                mmds_ipv4: None,
                tx_buffer: IoVecBuffer::new(),
                rx_buffer: RxBuffers::new(),
            },
        )
    }

    /// The address of the interface, if there is a fixed one.
    pub fn guest_mac(&self) -> (r: Option<MacAddr>)
        ensures
            r == self.guest_mac,
    {
        self.guest_mac
    }

    /// The name of the host interface.
    pub fn iface_name(&self) -> (r: String)
        ensures
            vstd::utf8::valid_utf8(unterminated(self.if_name@)) ==> r@ == vstd::utf8::decode_utf8(
                unterminated(self.if_name@),
            ),
            !vstd::utf8::valid_utf8(unterminated(self.if_name@)) ==> r@.len() == 0,
    {
        if_name_as_str(self.if_name.as_slice())
    }

    /// The size of frames, if it is advertised.
    pub open spec fn advertised_mtu(self) -> Option<u16> {
        if feature(self.avail_features, VIRTIO_NET_F_MTU) {
            Some(self.config_space.mtu)
        } else {
            None
        }
    }

    /// The size of frames, if it is advertised.
    pub fn mtu(&self) -> (r: Option<u16>)
        ensures
            r == self.advertised_mtu(),
    {
        if has_feature(self.avail_features, VIRTIO_NET_F_MTU) {
            Some(self.config_space.mtu)
        } else {
            None
        }
    }

    /// Lets the metadata service answer on this interface under an address.
    pub fn configure_mmds_network_stack(&mut self, ipv4_addr: u32)
        ensures
            *final(self) == (Net { mmds_ipv4: Some(ipv4_addr), ..*old(self) }),
    {
        self.mmds_ipv4 = Some(ipv4_addr);
    }

    /// Keeps the metadata service from answering on this interface.
    pub fn disable_mmds_network_stack(&mut self)
        ensures
            *final(self) == (Net { mmds_ipv4: None, ..*old(self) }),
    {
        self.mmds_ipv4 = None;
    }

    /// Lets the guest see the used entries of the queue of received frames, and says whether it is
    /// to be interrupted.
    pub fn signal_rx(&mut self) -> (r: bool)
        requires
            old(self).wf(),
        ensures
            final(self).wf(),
            final(self).same_but_rx(*old(self)),
            final(self).rx_buffer == old(self).rx_buffer,
            final(self).rx_queue.same_avail(old(self).rx_queue),
            final(self).rx_queue.used == old(self).rx_queue.used,
            final(self).rx_queue.staged == old(self).rx_queue.staged,
            final(self).rx_queue.published == old(self).rx_queue.used@.len(),
            r == old(self).rx_queue.notify,
    {
        self.rx_queue.advance_used_ring_idx();
        self.rx_queue.prepare_kick()
    }

    /// Lets the used ring hold a received frame if the limiter grants it.
    pub fn rate_limited_rx_single_frame(&mut self, frame_size: u32) -> (r: bool)
        requires
            old(self).wf(),
        ensures
            final(self).wf(),
            rx_granted(*old(self), *final(self), frame_size as u64, r),
    {
        if !self.rx_rate_limiter.consume_op(frame_size as u64) {
            return false;
        }
        self.rx_buffer.finish_frame(&mut self.rx_queue);
        true
    }

    /// The least size of a chain of buffers for what the driver accepted.
    pub fn minimum_rx_buffer_size(&self) -> (r: u32)
        ensures
            r == min_rx_buffer_size(self.acked_features),
    {
        if !has_feature(self.acked_features, VIRTIO_NET_F_MRG_RXBUF) {
            if has_feature(self.acked_features, VIRTIO_NET_F_GUEST_TSO4) || has_feature(
                self.acked_features,
                VIRTIO_NET_F_GUEST_TSO6,
            ) || has_feature(self.acked_features, VIRTIO_NET_F_GUEST_UFO) {
                MAX_BUFFER_SIZE as u32
            } else {
                MIN_PLAIN_BUFFER_SIZE
            }
        } else {
            vnet_hdr_len() as u32
        }
    }

    /// Takes the buffers that the guest provides for frames that it receives.
    pub fn parse_rx_descriptors(&mut self, mem: &GuestMemory) -> (r: Result<(), InvalidAvailIdx>)
        requires
            old(self).wf(),
            old(self).can_count(),
            mem.wf(),
            backed(old(self).rx_buffer.iovec.vecs@, *mem),
        ensures
            final(self).wf(),
            final(self).can_count(),
            final(self).same_but_rx(*old(self)),
            backed(final(self).rx_buffer.iovec.vecs@, *mem),
            rx_parsed(*old(self), *final(self), *mem, r),
    {
        let ghost before = *self;
        let ghost start = self.rx_queue;
        let ghost min = self.rx_buffer.min_buffer_size;
        let ghost whole = rx_parse(start.waiting(), *mem, before.rx_buffer.iovec.vecs@, min);
        let ghost mut staged: Seq<UsedElement> = seq![];
        let ghost mut parsed: Seq<ParsedDescriptorChain> = seq![];
        proof {
            assert(staged + whole.staged =~= whole.staged);
            assert(parsed + whole.parsed =~= whole.parsed);
            assert(start.staged@ + staged =~= start.staged@);
            assert(before.rx_buffer.parsed_descriptors@ + parsed
                =~= before.rx_buffer.parsed_descriptors@);
        }
        loop
            invariant
                before == *old(self),
                start == before.rx_queue,
                min == before.rx_buffer.min_buffer_size,
                before.wf(),
                self.wf(),
                self.can_count(),
                mem.wf(),
                backed(self.rx_buffer.iovec.vecs@, *mem),
                self.same_but_rx(before),
                self.rx_buffer.min_buffer_size == min,
                self.rx_buffer.used_bytes == before.rx_buffer.used_bytes,
                self.rx_queue.size == start.size,
                self.rx_queue.avail == start.avail,
                self.rx_queue.used == start.used,
                self.rx_queue.published == start.published,
                self.rx_queue.notify == start.notify,
                start.next_avail <= self.rx_queue.next_avail,
                self.rx_queue.next_avail > start.next_avail ==> start.pending() <= start.size,
                self.rx_queue.next_avail == start.next_avail ==> staged.len() == 0 && parsed.len()
                    == 0 && self.rx_buffer.iovec.vecs@ == before.rx_buffer.iovec.vecs@
                    && self.rx_buffer.iovec.len == before.rx_buffer.iovec.len,
                self.rx_queue.staged@ == start.staged@ + staged,
                self.rx_buffer.parsed_descriptors@ == before.rx_buffer.parsed_descriptors@ + parsed,
                whole == rx_parse(
                    start.waiting(),
                    *mem,
                    before.rx_buffer.iovec.vecs@,
                    min,
                ),
                ({
                    let rest = rx_parse(
                        self.rx_queue.waiting(),
                        *mem,
                        self.rx_buffer.iovec.vecs@,
                        min,
                    );
                    &&& whole.taken == self.rx_queue.next_avail - start.next_avail + rest.taken
                    &&& whole.staged == staged + rest.staged
                    &&& whole.parsed == parsed + rest.parsed
                    &&& whole.vecs == rest.vecs
                }),
            decreases self.rx_queue.avail@.len() - self.rx_queue.next_avail,
        {
            let ghost current = *self;
            let ghost rest = rx_parse(
                current.rx_queue.waiting(),
                *mem,
                current.rx_buffer.iovec.vecs@,
                min,
            );
            let head = match self.rx_queue.pop() {
                Err(e) => {
                    assert(self.rx_queue.staged@ =~= start.staged@);
                    assert(self.rx_buffer.parsed_descriptors@
                        =~= before.rx_buffer.parsed_descriptors@);
                    return Err(e);
                },
                Ok(None) => {
                    proof {
                        assert(staged + Seq::<UsedElement>::empty() =~= staged);
                        assert(parsed + Seq::<ParsedDescriptorChain>::empty() =~= parsed);
                    }
                    return Ok(());
                },
                Ok(Some(head)) => head,
            };
            proof {
                assert(current.rx_queue.waiting()[0] == head@);
                assert(self.rx_queue.waiting() =~= current.rx_queue.waiting().skip(1));
                assert(head@.descs.len()
                    == start.avail@[current.rx_queue.next_avail as int]@.descs.len());
            }
            match self.rx_buffer.add_buffer(mem, &head) {
                Ok(()) => {
                    proof {
                        let c = self.rx_buffer.parsed_descriptors@.last();
                        let pieces = pieces_of(head@.descs);
                        let vecs = current.rx_buffer.iovec.vecs@;
                        assert(backed(vecs + pieces, *mem)) by {
                            assert forall|i: int| 0 <= i < (vecs + pieces).len() implies mem.has_slice(
                                (#[trigger] (vecs + pieces)[i]).addr as int,
                                (vecs + pieces)[i].len as int,
                            ) by {
                                if i >= vecs.len() {
                                    assert((vecs + pieces)[i] == pieces[i - vecs.len()]);
                                } else {
                                    assert((vecs + pieces)[i] == vecs[i]);
                                }
                            }
                        }
                        let after = rx_parse(
                            self.rx_queue.waiting(),
                            *mem,
                            self.rx_buffer.iovec.vecs@,
                            min,
                        );
                        assert(rest.parsed == seq![c] + after.parsed);
                        assert(whole.parsed =~= parsed.push(c) + after.parsed);
                        assert(self.rx_buffer.parsed_descriptors@
                            =~= before.rx_buffer.parsed_descriptors@ + parsed.push(c));
                        parsed = parsed.push(c);
                    }
                },
                Err(AddRxBufferError::Parsing(IoVecError::IovDequeOverflow)) => {
                    // No more pieces of memory can be held.
                    self.rx_queue.undo_pop();
                    proof {
                        assert(staged + Seq::<UsedElement>::empty() =~= staged);
                        assert(parsed + Seq::<ParsedDescriptorChain>::empty() =~= parsed);
                    }
                    return Ok(());
                },
                Err(_) => {
                    // The guest learns of the broken chain with the next frame.
                    let _ = self.rx_queue.write_used_element(head.index, 0);
                    self.rx_buffer.used_descriptors = self.rx_buffer.used_descriptors + 1;
                    proof {
                        let entry = UsedElement { id: head.index, len: 0 };
                        let after = rx_parse(
                            self.rx_queue.waiting(),
                            *mem,
                            self.rx_buffer.iovec.vecs@,
                            min,
                        );
                        assert(self.rx_queue.waiting() =~= current.rx_queue.waiting().skip(1));
                        assert(rest.staged == seq![entry] + after.staged);
                        assert(whole.staged =~= staged.push(entry) + after.staged);
                        assert(self.rx_queue.staged@ =~= start.staged@ + staged.push(entry));
                        staged = staged.push(entry);
                    }
                },
            }
        }
    }

    /// Where the next frame for the guest is read from. A frame of the metadata service goes before
    /// those of the host interface.
    pub fn next_rx_source(&self, mmds_frame_waits: bool) -> (r: RxSource)
        ensures
            r == (if mmds_frame_waits {
                RxSource::Mmds
            } else {
                RxSource::Tap
            }),
    {
        if mmds_frame_waits {
            RxSource::Mmds
        } else {
            RxSource::Tap
        }
    }

    /// Makes sure that there is memory for the largest frame, and says whether there is.
    pub fn make_room(&mut self, mem: &GuestMemory) -> (r: Result<bool, InvalidAvailIdx>)
        requires
            old(self).wf(),
            old(self).can_count(),
            mem.wf(),
            backed(old(self).rx_buffer.iovec.vecs@, *mem),
        ensures
            final(self).wf(),
            final(self).can_count(),
            final(self).same_but_rx(*old(self)),
            backed(final(self).rx_buffer.iovec.vecs@, *mem),
            old(self).rx_buffer.iovec.len >= MAX_BUFFER_SIZE ==> r == Ok::<
                bool,
                InvalidAvailIdx,
            >(true) && *final(self) == *old(self),
            old(self).rx_buffer.iovec.len < MAX_BUFFER_SIZE ==> {
                &&& rx_parsed(
                    *old(self),
                    *final(self),
                    *mem,
                    match r {
                        Ok(_) => Ok(()),
                        Err(e) => Err(e),
                    },
                )
                &&& r matches Ok(room) ==> room == (final(self).rx_buffer.iovec.len
                    >= MAX_BUFFER_SIZE)
            },
    {
        if self.rx_buffer.capacity() >= MAX_BUFFER_SIZE as u32 {
            return Ok(true);
        }
        match self.parse_rx_descriptors(mem) {
            Ok(()) => Ok(self.rx_buffer.capacity() >= MAX_BUFFER_SIZE as u32),
            Err(e) => Err(e),
        }
    }

    // Puts a frame with its header into guest memory and accounts for it.
    fn receive(&mut self, mem: &mut GuestMemory, data: &[u8])
        requires
            old(self).wf(),
            old(self).can_count(),
            old(mem).wf(),
            backed(old(self).rx_buffer.iovec.vecs@, *old(mem)),
            old(self).rx_buffer.iovec.len >= MAX_BUFFER_SIZE,
            data@.len() <= old(self).rx_buffer.iovec.len,
        ensures
            final(self).wf(),
            final(self).can_count(),
            final(mem).wf(),
            final(self).same_but_rx(*old(self)),
            exists|mid: GuestMemory| #[trigger]
                received(*old(self), *final(self), *old(mem), mid, *final(mem), data@),
    {
        let ghost before = *self;
        let ghost first = *mem;
        let _ = self.rx_buffer.iovec.write_all_volatile_at(mem, data, 0);
        let ghost mid = *mem;
        proof {
            mid.lemma_same_shape(first);
            assert(backed(self.rx_buffer.iovec.vecs@, mid));
        }
        self.rx_buffer.mark_used(data.len() as u32, &mut self.rx_queue, mem);
        assert(received(before, *self, first, mid, *mem, data@));
    }

    /// Receives a frame from the metadata service. The answer is the number of bytes with the
    /// header, which is all zero but for the number of chains.
    pub fn rx_from_mmds(&mut self, mem: &mut GuestMemory, frame: &[u8]) -> (r: u32)
        requires
            old(self).wf(),
            old(self).can_count(),
            old(mem).wf(),
            backed(old(self).rx_buffer.iovec.vecs@, *old(mem)),
            old(self).rx_buffer.iovec.len >= MAX_BUFFER_SIZE,
            frame@.len() + VNET_HDR_LEN <= MAX_BUFFER_SIZE,
        ensures
            final(self).wf(),
            final(self).can_count(),
            final(mem).wf(),
            final(self).same_but_rx(*old(self)),
            r == frame@.len() + VNET_HDR_LEN,
            exists|mid: GuestMemory| #[trigger]
                received(
                    *old(self),
                    *final(self),
                    *old(mem),
                    mid,
                    *final(mem),
                    with_header(frame@),
                ),
    {
        let mut data: Vec<u8> = Vec::new();
        while data.len() < vnet_hdr_len()
            invariant
                data@.len() <= VNET_HDR_LEN,
                data@ == Seq::new(data@.len(), |i: int| 0u8),
            decreases VNET_HDR_LEN - data.len(),
        {
            data.push(0);
            assert(data@ =~= Seq::new(data@.len(), |i: int| 0u8));
        }
        let ghost header = data@;
        let mut i: usize = 0;
        assert(data@ =~= header + frame@.take(0));
        while i < frame.len()
            invariant
                i <= frame@.len(),
                data@ == header + frame@.take(i as int),
            decreases frame.len() - i,
        {
            data.push(frame[i]);
            assert(data@ =~= header + frame@.take(i + 1));
            i = i + 1;
        }
        assert(data@ =~= with_header(frame@));
        self.receive(mem, data.as_slice());
        data.len() as u32
    }

    /// The most bytes that are to be read from the host interface at once: as much memory as there
    /// is where frames may be spread, and that of the first chain otherwise.
    pub fn tap_room(&self) -> (r: u32)
        requires
            self.rx_buffer.parsed_descriptors@.len() > 0,
        ensures
            r == (if feature(self.acked_features, VIRTIO_NET_F_MRG_RXBUF) {
                self.rx_buffer.iovec.len
            } else {
                self.rx_buffer.parsed_descriptors@[0].length
            }),
    {
        if has_feature(self.acked_features, VIRTIO_NET_F_MRG_RXBUF) {
            self.rx_buffer.capacity()
        } else {
            self.rx_buffer.single_chain_len()
        }
    }

    /// Receives a frame that was read from the host interface with its header. The answer is the
    /// number of bytes.
    pub fn rx_from_tap(&mut self, mem: &mut GuestMemory, data: &[u8]) -> (r: u32)
        requires
            old(self).wf(),
            old(self).can_count(),
            old(mem).wf(),
            backed(old(self).rx_buffer.iovec.vecs@, *old(mem)),
            old(self).rx_buffer.iovec.len >= MAX_BUFFER_SIZE,
            data@.len() <= old(self).rx_buffer.iovec.len,
        ensures
            final(self).wf(),
            final(self).can_count(),
            final(mem).wf(),
            final(self).same_but_rx(*old(self)),
            r == data@.len(),
            exists|mid: GuestMemory| #[trigger]
                received(*old(self), *final(self), *old(mem), mid, *final(mem), data@),
    {
        self.receive(mem, data);
        data.len() as u32
    }

    /// Whether frames may be received: a frame that was held back is finished first, as far as the
    /// limiter grants it.
    pub fn resume_rx(&mut self) -> (r: bool)
        requires
            old(self).wf(),
        ensures
            final(self).wf(),
            rx_resumed(*old(self), *final(self), r),
    {
        if self.rx_buffer.used_bytes != 0 {
            let size: u32 = self.rx_buffer.used_bytes;
            return self.rate_limited_rx_single_frame(size);
        }
        true
    }

    /// How receiving goes on after a frame or a failure.
    pub fn after_rx(&mut self, event: RxEvent) -> (r: RxNext)
        requires
            old(self).wf(),
        ensures
            final(self).wf(),
            !(event is Frame) ==> *final(self) == *old(self),
            match event {
                RxEvent::NoRoom => r == RxNext::Finish,
                RxEvent::TapError(e) => r == (if e == EAGAIN {
                    RxNext::Finish
                } else {
                    RxNext::Fail(DeviceError::FailedReadTap)
                }),
                RxEvent::Broken(e) => r == RxNext::Fail(DeviceError::InvalidAvailIdx(e)),
                RxEvent::Frame(bytes) => {
                    &&& r is Again || r is Finish
                    &&& rx_granted(*old(self), *final(self), bytes as u64, r is Again)
                },
            },
    {
        match event {
            RxEvent::NoRoom => RxNext::Finish,
            RxEvent::Frame(bytes) => {
                if self.rate_limited_rx_single_frame(bytes) {
                    RxNext::Again
                } else {
                    RxNext::Finish
                }
            },
            RxEvent::TapError(e) => if e == EAGAIN {
                RxNext::Finish
            } else {
                RxNext::Fail(DeviceError::FailedReadTap)
            },
            RxEvent::Broken(e) => RxNext::Fail(DeviceError::InvalidAvailIdx(e)),
        }
    }

    /// What an event on the queue of received frames calls for. The buffers that the guest added
    /// are taken even while the limiter waits for its timer.
    pub fn process_rx_queue_event(&mut self, mem: &GuestMemory, event_was_read: bool) -> (r:
        NetEventAction)
        requires
            old(self).wf(),
            old(self).can_count(),
            mem.wf(),
            backed(old(self).rx_buffer.iovec.vecs@, *mem),
            event_was_read ==> old(self).rx_queue.pending() <= old(self).rx_queue.size,
        ensures
            final(self).wf(),
            !event_was_read ==> r == NetEventAction::ReportFailure && *final(self) == *old(self),
            event_was_read ==> exists|parsed: Net| #[trigger]
                rx_parsed(*old(self), parsed, *mem, Ok(())) && parsed.same_but_rx(*old(self))
                    && rx_event(parsed, *final(self), r),
    {
        if !event_was_read {
            return NetEventAction::ReportFailure;
        }
        let _ = self.parse_rx_descriptors(mem);
        assert(rx_parsed(*old(self), *self, *mem, Ok(())));
        self.process_tap_rx_event()
    }

    /// What a frame that waits at the host interface calls for: nothing while the limiter waits for
    /// its timer.
    pub fn process_tap_rx_event(&mut self) -> (r: NetEventAction)
        requires
            old(self).wf(),
        ensures
            final(self).wf(),
            rx_event(*old(self), *final(self), r),
    {
        if self.rx_rate_limiter.is_blocked() {
            return NetEventAction::Throttled;
        }
        if self.resume_rx() {
            NetEventAction::Receive
        } else {
            NetEventAction::Held
        }
    }

    /// What an event on the queue of frames to send calls for.
    pub fn process_tx_queue_event(&self, event_was_read: bool) -> (r: NetEventAction)
        ensures
            r == (if !event_was_read {
                NetEventAction::ReportFailure
            } else if self.tx_rate_limiter.timer_active {
                NetEventAction::Throttled
            } else {
                NetEventAction::Transmit
            }),
    {
        if !event_was_read {
            NetEventAction::ReportFailure
        } else if self.tx_rate_limiter.is_blocked() {
            NetEventAction::Throttled
        } else {
            NetEventAction::Transmit
        }
    }

    /// What an event of the limiter of received frames calls for.
    pub fn process_rx_rate_limiter_event(&mut self, expirations: u64) -> (r: NetEventAction)
        requires
            old(self).wf(),
        ensures
            final(self).wf(),
            expirations == 0 ==> r == NetEventAction::ReportFailure && *final(self) == *old(self),
            expirations > 0 ==> (r == NetEventAction::Receive || r == NetEventAction::Held)
                && rx_resumed(
                Net {
                    rx_rate_limiter: RateLimiter {
                        timer_active: false,
                        ..old(self).rx_rate_limiter
                    },
                    ..*old(self)
                },
                *final(self),
                r == NetEventAction::Receive,
            ),
    {
        match self.rx_rate_limiter.event_handler(expirations) {
            Ok(()) => if self.resume_rx() {
                NetEventAction::Receive
            } else {
                NetEventAction::Held
            },
            Err(_) => NetEventAction::ReportFailure,
        }
    }

    /// What an event of the limiter of frames to send calls for.
    pub fn process_tx_rate_limiter_event(&mut self, expirations: u64) -> (r: NetEventAction)
        ensures
            r == (if expirations == 0 {
                NetEventAction::ReportFailure
            } else {
                NetEventAction::Transmit
            }),
            *final(self) == (Net {
                tx_rate_limiter: RateLimiter {
                    timer_active: old(self).tx_rate_limiter.timer_active && expirations == 0,
                    ..old(self).tx_rate_limiter
                },
                ..*old(self)
            }),
    {
        match self.tx_rate_limiter.event_handler(expirations) {
            Ok(()) => NetEventAction::Transmit,
            Err(_) => NetEventAction::ReportFailure,
        }
    }

    /// Looks for the next frame to send. The headers are those behind the virtio header.
    pub fn next_tx_frame(&mut self, mem: &GuestMemory, run: &mut TxRun) -> (r: Result<
        TxStep,
        InvalidAvailIdx,
    >)
        requires
            old(self).wf(),
            mem.wf(),
            old(run).pending is None,
        ensures
            final(self).wf(),
            final(run).process_rx == old(run).process_rx,
            *final(self) == (Net {
                tx_queue: final(self).tx_queue,
                tx_buffer: final(self).tx_buffer,
                tx_rate_limiter: final(self).tx_rate_limiter,
                ..*old(self)
            }),
            final(self).tx_queue.size == old(self).tx_queue.size,
            final(self).tx_queue.avail == old(self).tx_queue.avail,
            final(self).tx_queue.staged == old(self).tx_queue.staged,
            final(self).tx_queue.published == old(self).tx_queue.published,
            final(self).tx_queue.notify == old(self).tx_queue.notify,
            tx_stepped(*old(self), *final(self), *mem, final(run).pending, r),
    {
        let ghost before = *self;
        let ghost start = self.tx_queue;
        let ghost whole = tx_scan(start.waiting(), *mem, self.tx_rate_limiter);
        let ghost mut done: Seq<u16> = seq![];
        proof {
            assert(start.used@ + empty_entries(seq![]) =~= start.used@);
            assert(done + whole.used =~= whole.used);
        }
        loop
            invariant
                before == *old(self),
                start == before.tx_queue,
                before.wf(),
                self.wf(),
                mem.wf(),
                run.pending is None,
                run.process_rx == old(run).process_rx,
                *self == (Net {
                    tx_queue: self.tx_queue,
                    tx_buffer: self.tx_buffer,
                    tx_rate_limiter: self.tx_rate_limiter,
                    ..before
                }),
                self.tx_queue.size == start.size,
                self.tx_queue.avail == start.avail,
                self.tx_queue.staged == start.staged,
                self.tx_queue.published == start.published,
                self.tx_queue.notify == start.notify,
                start.next_avail <= self.tx_queue.next_avail,
                self.tx_queue.next_avail > start.next_avail ==> start.pending() <= start.size,
                self.tx_queue.next_avail == start.next_avail ==> *self == before,
                self.tx_queue.used@ == start.used@ + empty_entries(done),
                whole == tx_scan(start.waiting(), *mem, before.tx_rate_limiter),
                ({
                    let rest = tx_scan(self.tx_queue.waiting(), *mem, self.tx_rate_limiter);
                    &&& whole.taken == self.tx_queue.next_avail - start.next_avail + rest.taken
                    &&& whole.used == done + rest.used
                    &&& whole.limiter == rest.limiter
                    &&& whole.outcome == rest.outcome
                }),
            decreases self.tx_queue.avail@.len() - self.tx_queue.next_avail,
        {
            let ghost current = *self;
            let ghost rest = tx_scan(current.tx_queue.waiting(), *mem, current.tx_rate_limiter);
            let head = match self.tx_queue.pop() {
                Err(e) => {
                    return Err(e);
                },
                Ok(None) => {
                    assert(done + Seq::<u16>::empty() =~= done);
                    return Ok(TxStep::Exhausted);
                },
                Ok(Some(head)) => head,
            };
            proof {
                assert(current.tx_queue.waiting()[0] == head@);
                assert(self.tx_queue.waiting() =~= current.tx_queue.waiting().skip(1));
                assert(head@.descs.len()
                    == start.avail@[current.tx_queue.next_avail as int]@.descs.len());
                assert(empty_entries(done.push(head.index)) =~= empty_entries(done).push(
                    UsedElement { id: head.index, len: 0 },
                ));
            }
            let loaded: bool = self.tx_buffer.load_descriptor_chain(mem, &head).is_ok();
            if !loaded || self.tx_buffer.len() as usize > MAX_BUFFER_SIZE {
                let _ = self.tx_queue.add_used(head.index, 0);
                proof {
                    let after = tx_scan(self.tx_queue.waiting(), *mem, self.tx_rate_limiter);
                    assert(self.tx_queue.waiting() =~= current.tx_queue.waiting().skip(1));
                    assert(rest.used == seq![head.index] + after.used);
                    assert(whole.used =~= done.push(head.index) + after.used);
                    assert(self.tx_queue.used@ =~= start.used@ + empty_entries(
                        done.push(head.index),
                    ));
                    done = done.push(head.index);
                }
                continue ;
            }
            let len: u64 = self.tx_buffer.len() as u64;
            if !self.tx_rate_limiter.consume_op(len) {
                self.tx_queue.undo_pop();
                assert(done + Seq::<u16>::empty() =~= done);
                return Ok(TxStep::Throttled);
            }
            let all = self.tx_buffer.read_volatile_at(mem, 0, frame_hdr_len());
            match frame_bytes_from_buf(all.as_slice()) {
                Err(_) => {
                    let _ = self.tx_queue.add_used(head.index, 0);
                    proof {
                        let after = tx_scan(self.tx_queue.waiting(), *mem, self.tx_rate_limiter);
                        assert(self.tx_queue.waiting() =~= current.tx_queue.waiting().skip(1));
                        assert(rest.used == seq![head.index] + after.used);
                        assert(whole.used =~= done.push(head.index) + after.used);
                        assert(self.tx_queue.used@ =~= start.used@ + empty_entries(
                            done.push(head.index),
                        ));
                        done = done.push(head.index);
                    }
                },
                Ok(frame) => {
                    let headers = vstd::slice::slice_to_vec(frame);
                    let spoofed = claims_other_sender(&headers, self.guest_mac);
                    run.pending = Some(head.index);
                    assert(done + Seq::<u16>::empty() =~= done);
                    return Ok(TxStep::Frame { headers, spoofed });
                },
            }
        }
    }

    /// Sends the frame that was found. One that the metadata service takes counts for no limit and
    /// lets frames be received afterwards, unless one is held back. The answer is what is to be
    /// sent: the frame for the metadata service, and the frame with its virtio header for the host
    /// interface.
    pub fn send_tx_frame(&mut self, mem: &GuestMemory, run: &mut TxRun, to_mmds: bool) -> (r: Vec<
        u8,
    >)
        requires
            old(self).wf(),
            mem.wf(),
            old(run).pending matches Some(index) && index < old(self).tx_queue.size,
            old(self).tx_buffer.wf(),
            backed(old(self).tx_buffer.vecs@, *mem),
        ensures
            final(self).wf(),
            tx_sent(*old(self), *final(self), *mem, *old(run), *final(run), to_mmds, r@),
    {
        let index: u16 = run.pending.unwrap();
        let len: u32 = self.tx_buffer.len();
        let bytes = if to_mmds {
            self.tx_rate_limiter.replenish_op(len as u64);
            if self.rx_buffer.used_bytes == 0 {
                run.process_rx = true;
            }
            self.tx_buffer.read_volatile_at(mem, vnet_hdr_len(), len as usize)
        } else {
            self.tx_buffer.read_volatile_at(mem, 0, len as usize)
        };
        let _ = self.tx_queue.add_used(index, 0);
        run.pending = None;
        bytes
    }

    /// Ends a run of sending frames.
    pub fn finish_tx(&mut self, run: &TxRun) -> (r: TxFinish)
        requires
            old(self).wf(),
        ensures
            final(self).wf(),
            *final(self) == (Net {
                tx_queue: final(self).tx_queue,
                tx_buffer: final(self).tx_buffer,
                ..*old(self)
            }),
            final(self).tx_buffer.vecs@.len() == 0,
            final(self).tx_buffer.len == 0,
            final(self).tx_queue.same_avail(old(self).tx_queue),
            final(self).tx_queue.staged == old(self).tx_queue.staged,
            final(self).tx_queue.used == old(self).tx_queue.used,
            final(self).tx_queue.published == old(self).tx_queue.used@.len(),
            r.interrupt == old(self).tx_queue.notify,
            r.process_rx == run.process_rx,
    {
        self.tx_buffer.clear();
        self.tx_queue.advance_used_ring_idx();
        TxFinish { interrupt: self.tx_queue.prepare_kick(), process_rx: run.process_rx }
    }

    /// The flags of the host interface for what the driver takes.
    pub fn build_tap_offload_features(guest_supported_features: u64) -> (r: u32)
        ensures
            r == tap_features(guest_supported_features),
    {
        flag_if(guest_supported_features, VIRTIO_NET_F_GUEST_CSUM, TUN_F_CSUM) | flag_if(
            guest_supported_features,
            VIRTIO_NET_F_GUEST_UFO,
            TUN_F_UFO,
        ) | flag_if(guest_supported_features, VIRTIO_NET_F_GUEST_TSO4, TUN_F_TSO4) | flag_if(
            guest_supported_features,
            VIRTIO_NET_F_GUEST_TSO6,
            TUN_F_TSO6,
        )
    }

    /// Replaces the limits that an update speaks of.
    pub fn patch_rate_limiters(
        &mut self,
        rx_bytes: BucketUpdate,
        rx_ops: BucketUpdate,
        tx_bytes: BucketUpdate,
        tx_ops: BucketUpdate,
    )
        ensures
            *final(self) == (Net {
                rx_rate_limiter: RateLimiter {
                    bandwidth: updated_bucket(old(self).rx_rate_limiter.bandwidth, rx_bytes),
                    ops: updated_bucket(old(self).rx_rate_limiter.ops, rx_ops),
                    ..old(self).rx_rate_limiter
                },
                tx_rate_limiter: RateLimiter {
                    bandwidth: updated_bucket(old(self).tx_rate_limiter.bandwidth, tx_bytes),
                    ops: updated_bucket(old(self).tx_rate_limiter.ops, tx_ops),
                    ..old(self).tx_rate_limiter
                },
                ..*old(self)
            }),
    {
        self.rx_rate_limiter.update_buckets(rx_bytes, rx_ops);
        self.tx_rate_limiter.update_buckets(tx_bytes, tx_ops);
    }

    /// The bytes of the configuration space. The guest cannot change them.
    pub fn config_as_bytes(&self) -> (r: Vec<u8>)
        ensures
            r@ == self.config_space.bytes(),
    {
        let mac = self.config_space.guest_mac;
        let mut b: Vec<u8> = vec![mac.b0, mac.b1, mac.b2, mac.b3, mac.b4, mac.b5, 0, 0, 0, 0];
        let mut mtu: Vec<u8> = to_le16(self.config_space.mtu);
        b.append(&mut mtu);
        assert(b@ =~= self.config_space.bytes());
        b
    }

    /// Makes the device active, given that its queues are in guest memory, that the host interface
    /// took the flags for the accepted features and that the event loop was told. The answer is
    /// whether notifications are suppressed by event indices.
    pub fn activate(&mut self, queues_found: bool, offload_set: bool, event_sent: bool) -> (r:
        Result<bool, ActivateError>)
        requires
            !old(self).activated,
        ensures
            r == (if !queues_found {
                Err(ActivateError::QueueMemoryError)
            } else if !offload_set {
                Err(ActivateError::TapSetOffload)
            } else if !event_sent {
                Err(ActivateError::EventFd)
            } else {
                Ok(old(self).acked_features & (1u64 << VIRTIO_RING_F_EVENT_IDX) != 0)
            }),
            *final(self) == (Net {
                activated: r is Ok,
                rx_buffer: RxBuffers {
                    min_buffer_size: if queues_found && offload_set {
                        min_rx_buffer_size(old(self).acked_features)
                    } else {
                        old(self).rx_buffer.min_buffer_size
                    },
                    ..old(self).rx_buffer
                },
                ..*old(self)
            }),
    {
        if !queues_found {
            return Err(ActivateError::QueueMemoryError);
        }
        if !offload_set {
            return Err(ActivateError::TapSetOffload);
        }
        self.rx_buffer.min_buffer_size = self.minimum_rx_buffer_size();
        if !event_sent {
            return Err(ActivateError::EventFd);
        }
        self.activated = true;
        Ok(has_feature(self.acked_features, VIRTIO_RING_F_EVENT_IDX))
    }

    /// Gets an active device ready to be saved: a frame that is held back goes to the guest, and
    /// buffers that were parsed are left to be parsed again.
    pub fn prepare_save(&mut self)
        requires
            old(self).wf(),
        ensures
            final(self).wf(),
            !old(self).activated ==> *final(self) == *old(self),
            old(self).activated ==> {
                &&& final(self).same_but_rx(*old(self))
                &&& final(self).rx_queue.used@ == old(self).rx_queue.used@ + old(self).rx_queue.staged@
                &&& final(self).rx_queue.staged@.len() == 0
                &&& final(self).rx_queue.avail == old(self).rx_queue.avail
                &&& final(self).rx_queue.size == old(self).rx_queue.size
                &&& final(self).rx_queue.published == old(self).rx_queue.published
                &&& final(self).rx_queue.notify == old(self).rx_queue.notify
                &&& final(self).rx_queue.next_avail == old(self).rx_queue.next_avail - old(
                    self,
                ).rx_buffer.parsed_descriptors@.len()
                &&& final(self).rx_buffer.parsed_descriptors@.len() == 0
                &&& final(self).rx_buffer.iovec.vecs@.len() == 0
                &&& final(self).rx_buffer.iovec.len == 0
                &&& final(self).rx_buffer.used_bytes == 0
                &&& final(self).rx_buffer.used_descriptors == 0
                &&& final(self).rx_buffer.min_buffer_size == old(self).rx_buffer.min_buffer_size
            },
    {
        if !self.activated {
            return ;
        }
        self.rx_buffer.finish_frame(&mut self.rx_queue);
        self.rx_queue.next_avail = self.rx_queue.next_avail
            - self.rx_buffer.parsed_descriptors.len();
        self.rx_buffer.parsed_descriptors.clear();
        self.rx_buffer.iovec.clear();
    }
}

/// What work on the next frame to send leads to: which chains are taken and given back, and which
/// chain is pending.
pub open spec fn tx_stepped(
    before: Net,
    after: Net,
    mem: GuestMemory,
    pending: Option<u16>,
    r: Result<TxStep, InvalidAvailIdx>,
) -> bool {
    &&& before.tx_queue.pending() > before.tx_queue.size ==> {
        &&& r matches Err(e)
        &&& e.pending == before.tx_queue.pending()
        &&& e.queue_size == before.tx_queue.size
        &&& after == before
        &&& pending is None
    }
    &&& before.tx_queue.pending() <= before.tx_queue.size ==> {
        let scan = tx_scan(before.tx_queue.waiting(), mem, before.tx_rate_limiter);
        &&& after.tx_queue.next_avail == before.tx_queue.next_avail + scan.taken
        &&& after.tx_queue.used@ == before.tx_queue.used@ + empty_entries(scan.used)
        &&& after.tx_rate_limiter == scan.limiter
        &&& match scan.outcome {
            TxOutcome::Exhausted => r is Ok && r->Ok_0 is Exhausted && pending is None,
            TxOutcome::Throttled => r is Ok && r->Ok_0 is Throttled && pending is None,
            TxOutcome::Frame(c) => {
                &&& r matches Ok(TxStep::Frame { headers, spoofed })
                &&& pending == Some(c.index)
                &&& c.index < after.tx_queue.size
                &&& after.tx_buffer.wf()
                &&& after.tx_buffer.vecs@ == pieces_of(c.descs)
                &&& backed(after.tx_buffer.vecs@, mem)
                &&& after.tx_buffer.len >= VNET_HDR_LEN
                &&& headers@ == after.tx_buffer.bytes_at(
                    mem,
                    0,
                    VNET_HDR_LEN + FRAME_HEADER_MAX_LEN,
                ).skip(VNET_HDR_LEN as int)
                &&& spoofed == is_spoofed(headers@, before.guest_mac)
            },
        }
    }
}

/// What it means that the pending frame was sent: either to the metadata service, which costs
/// nothing and gets the frame without the header, or out of the machine.
pub open spec fn tx_sent(
    before: Net,
    after: Net,
    mem: GuestMemory,
    run: TxRun,
    next: TxRun,
    to_mmds: bool,
    data: Seq<u8>,
) -> bool {
    &&& next.pending is None
    &&& next.process_rx == (run.process_rx || (to_mmds && before.rx_buffer.used_bytes == 0))
    &&& after == (Net {
        tx_queue: after.tx_queue,
        tx_rate_limiter: if to_mmds {
            restored_op(before.tx_rate_limiter, before.tx_buffer.len as u64)
        } else {
            before.tx_rate_limiter
        },
        ..before
    })
    &&& after.tx_queue.same_avail(before.tx_queue)
    &&& after.tx_queue.staged == before.tx_queue.staged
    &&& after.tx_queue.published == before.tx_queue.published
    &&& after.tx_queue.used@ == before.tx_queue.used@.push(
        UsedElement { id: run.pending->Some_0, len: 0 },
    )
    &&& data == (if to_mmds {
        before.tx_buffer.bytes_at(mem, VNET_HDR_LEN as int, before.tx_buffer.len as int)
    } else {
        before.tx_buffer.bytes_at(mem, 0, before.tx_buffer.len as int)
    })
}

/// What comes of asking the limiter for a received frame: a frame that it grants goes to the used
/// ring, one that it does not grant is held back.
pub open spec fn rx_granted(before: Net, after: Net, frame_size: u64, r: bool) -> bool {
    &&& r == grants_op(before.rx_rate_limiter, frame_size)
    &&& after == (Net {
        rx_queue: after.rx_queue,
        rx_buffer: after.rx_buffer,
        rx_rate_limiter: consumed_op(before.rx_rate_limiter, frame_size),
        ..before
    })
    &&& !r ==> after.rx_queue == before.rx_queue && after.rx_buffer == before.rx_buffer
    &&& r ==> {
        &&& after.rx_queue.same_avail(before.rx_queue)
        &&& after.rx_queue.used@ == before.rx_queue.used@ + before.rx_queue.staged@
        &&& after.rx_queue.staged@.len() == 0
        &&& after.rx_queue.published == before.rx_queue.published
        &&& after.rx_buffer == (RxBuffers {
            used_bytes: 0,
            used_descriptors: 0,
            ..before.rx_buffer
        })
    }
}

/// What an event calls for that lets frames be received.
pub open spec fn rx_event(before: Net, after: Net, r: NetEventAction) -> bool {
    if before.rx_rate_limiter.timer_active {
        r == NetEventAction::Throttled && after == before
    } else {
        &&& r == NetEventAction::Receive || r == NetEventAction::Held
        &&& rx_resumed(before, after, r == NetEventAction::Receive)
    }
}

/// Where a frame for the guest is read from.
#[derive(Debug, Clone, Copy, PartialEq, Eq, Structural)]
pub enum RxSource {
    /// From the metadata service.
    Mmds,
    /// From the host interface.
    Tap,
}

/// What comes of taking up receiving again: a frame that was held back comes first.
pub open spec fn rx_resumed(before: Net, after: Net, r: bool) -> bool {
    if before.rx_buffer.used_bytes == 0 {
        r && after == before
    } else {
        rx_granted(before, after, before.rx_buffer.used_bytes as u64, r)
    }
}

/// What comes of parsing the buffers that the guest provides for frames that it receives.
pub open spec fn rx_parsed(
    before: Net,
    after: Net,
    mem: GuestMemory,
    r: Result<(), InvalidAvailIdx>,
) -> bool {
    let q = before.rx_queue;
    &&& after.rx_queue.size == q.size
    &&& after.rx_queue.avail == q.avail
    &&& after.rx_queue.used == q.used
    &&& after.rx_queue.published == q.published
    &&& after.rx_queue.notify == q.notify
    &&& after.rx_buffer.used_bytes == before.rx_buffer.used_bytes
    &&& after.rx_buffer.min_buffer_size == before.rx_buffer.min_buffer_size
    &&& q.pending() > q.size ==> {
        &&& r matches Err(e)
        &&& e.pending == q.pending()
        &&& e.queue_size == q.size
        &&& after.rx_queue.next_avail == q.next_avail
        &&& after.rx_queue.staged@ == q.staged@
        &&& after.rx_buffer.parsed_descriptors@ == before.rx_buffer.parsed_descriptors@
        &&& after.rx_buffer.iovec.vecs@ == before.rx_buffer.iovec.vecs@
    }
    &&& q.pending() <= q.size ==> {
        let run = rx_parse(
            q.waiting(),
            mem,
            before.rx_buffer.iovec.vecs@,
            before.rx_buffer.min_buffer_size,
        );
        &&& r is Ok
        &&& after.rx_queue.next_avail == q.next_avail + run.taken
        &&& after.rx_queue.staged@ == q.staged@ + run.staged
        &&& after.rx_buffer.parsed_descriptors@ == before.rx_buffer.parsed_descriptors@
            + run.parsed
        &&& after.rx_buffer.iovec.vecs@ == run.vecs
    }
}

/// A frame that the monitor itself makes has twelve bytes of zeros before it.
pub proof fn law_frames_get_an_empty_header(frame: Seq<u8>, i: int)
    requires
        0 <= i < 12 + frame.len(),
    ensures
        with_header(frame).len() == 12 + frame.len(),
        i < 12 ==> with_header(frame)[i] == 0,
        12 <= i ==> with_header(frame)[i] == frame[i - 12],
{
}

/// Frames are received again as soon as no limit stands against it: not while the limiter waits for
/// its timer, and at once where no frame was held back.
pub proof fn law_receiving_goes_on(before: Net, after: Net, r: NetEventAction)
    requires
        rx_event(before, after, r),
    ensures
        before.rx_rate_limiter.timer_active ==> r == NetEventAction::Throttled && after == before,
        !before.rx_rate_limiter.timer_active && before.rx_buffer.used_bytes == 0 ==> r
            == NetEventAction::Receive && after == before,
        !before.rx_rate_limiter.timer_active ==> r == NetEventAction::Receive || r
            == NetEventAction::Held,
{
}

} // verus!
