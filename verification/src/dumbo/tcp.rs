//! Parts of TCP.

use vstd::prelude::*;

verus! {

/// The largest window.
pub const MAX_WINDOW_SIZE: u32 = 1_073_725_440;

/// The size of segments where none was agreed on.
pub const MSS_DEFAULT: u16 = 536;

/// Flag: the connection is reset.
pub const RST: u8 = 4;

/// Flag: the acknowledgement number counts.
pub const ACK: u8 = 16;

/// Whether there are segments to send.
#[derive(Debug, Clone, Copy, PartialEq, Eq, Structural)]
pub enum NextSegmentStatus {
    /// There is one at least.
    Available,
    /// There is none.
    Nothing,
    /// There will be one after a point in time.
    Timeout(u64),
}

/// The parts of a segment that an answer to it depends on.
#[derive(Debug, Clone, Copy, PartialEq, Eq, Structural)]
pub struct TcpSegment {
    /// Sequence number.
    pub sequence_number: u32,
    /// Acknowledgement number.
    pub ack_number: u32,
    /// Flags.
    pub flags: u8,
    /// Number of bytes carried.
    pub payload_len: u16,
}

/// The numbers of a segment that resets a connection.
#[derive(Debug, Clone, Copy, PartialEq, Eq, Structural)]
pub enum RstConfig {
    /// A sequence number.
    Sequence(u32),
    /// An acknowledgement number.
    Ack(u32),
}

/// A sequence number moved on.
pub open spec fn moved_on(seq: u32, by: int) -> u32 {
    ((seq + by) % 0x1_0000_0000) as u32
}

/// How far `a` is ahead of `b`, where numbers start over at zero.
pub open spec fn ahead(a: u32, b: u32) -> int {
    (a - b) % 0x1_0000_0000
}

/// How a segment is answered by a reset.
pub open spec fn reset_for(s: TcpSegment) -> RstConfig {
    if s.flags & ACK != 0 {
        RstConfig::Sequence(s.ack_number)
    } else {
        RstConfig::Ack(moved_on(s.sequence_number, s.payload_len as int))
    }
}

/// Sequence number, acknowledgement number and flags of a reset.
pub open spec fn reset_parts(config: RstConfig) -> (u32, u32, u8) {
    match config {
        RstConfig::Sequence(seq) => (seq, 0u32, RST),
        RstConfig::Ack(ack) => (0u32, ack, RST | ACK),
    }
}

impl RstConfig {
    /// How a segment is answered by a reset: in sequence with what it acknowledges, or else by
    /// acknowledging it.
    pub fn new(s: &TcpSegment) -> (r: RstConfig)
        ensures
            r == reset_for(*s),
    {
        if s.flags & ACK != 0 {
            RstConfig::Sequence(s.ack_number)
        } else {
            RstConfig::Ack(s.sequence_number.wrapping_add(s.payload_len as u32))
        }
    }

    /// Sequence number, acknowledgement number and flags of the segment.
    pub fn seq_ack_tcp_flags(self) -> (r: (u32, u32, u8))
        ensures
            r == reset_parts(self),
    {
        match self {
            RstConfig::Sequence(seq) => (seq, 0, RST),
            RstConfig::Ack(ack) => (0, ack, RST | ACK),
        }
    }
}

/// Whether `a` comes after `b`, as far as the largest window reaches.
pub fn seq_after(a: u32, b: u32) -> (r: bool)
    ensures
        r == (0 < ahead(a, b) < MAX_WINDOW_SIZE),
{
    a != b && a.wrapping_sub(b) < MAX_WINDOW_SIZE
}

/// Whether `a` is `b` or comes after it, as far as the largest window reaches.
pub fn seq_at_or_after(a: u32, b: u32) -> (r: bool)
    ensures
        r == (ahead(a, b) < MAX_WINDOW_SIZE),
{
    a.wrapping_sub(b) < MAX_WINDOW_SIZE
}

/// Of two numbers at most one comes after the other, and a number that comes after another, or is
/// it, is one of the two.
pub proof fn law_order_of_sequence_numbers(a: u32, b: u32)
    ensures
        !(0 < ahead(a, b) < MAX_WINDOW_SIZE && 0 < ahead(b, a) < MAX_WINDOW_SIZE),
        ahead(a, b) < MAX_WINDOW_SIZE <==> (a == b || 0 < ahead(a, b) < MAX_WINDOW_SIZE),
{
}

/// The order stays when both numbers move on by the same amount.
pub proof fn law_order_moves_on(a: u32, b: u32, by: int)
    requires
        0 <= by,
    ensures
        ahead(moved_on(a, by), moved_on(b, by)) == ahead(a, b),
{
}

/// A reset acknowledges exactly where the segment did not, and is a reset in any case.
pub proof fn law_reset_acknowledges(s: TcpSegment)
    ensures
        reset_parts(reset_for(s)).2 & ACK != 0 <==> s.flags & ACK == 0,
        reset_parts(reset_for(s)).2 & RST != 0,
{
    assert((4u8 | 16u8) & 16u8 != 0 && 4u8 & 16u8 == 0 && (4u8 | 16u8) & 4u8 != 0 && 4u8 & 4u8 != 0)
        by (bit_vector);
}

/// How a segment is rejected: with the number that it acknowledges (flag 16), or, if it acknowledges
/// none, by acknowledging all that it holds.
pub proof fn law_rejections(s: TcpSegment)
    ensures
        s.flags & 16 != 0 ==> reset_parts(reset_for(s)).0 == s.ack_number && reset_parts(
            reset_for(s),
        ).1 == 0,
        s.flags & 16 == 0 ==> reset_parts(reset_for(s)).0 == 0 && reset_parts(reset_for(s)).1 == (
        s.sequence_number + s.payload_len) % 0x1_0000_0000,
{
}

/// A number is ahead of another by as much as it was moved on, and numbers wrap around.
pub proof fn law_numbers_wrap_around(seq: u32, by: int)
    requires
        0 <= by < 0x1_0000_0000,
    ensures
        ahead(moved_on(seq, by), seq) == by,
{
}

} // verus!
