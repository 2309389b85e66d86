//! How frames leave the guest and how they get to it.

use vstd::prelude::*;

use crate::devices::virtio::iovec::{
    addr_at, law_which_chains_can_be_read, law_which_chains_can_be_written, lemma_total_nonneg,
    pieces_of, total, ParsedDescriptorChain,
};
use crate::devices::virtio::net::device::{
    min_rx_buffer_size, offered, received, rx_parse, rx_parsed, rx_resumed, tap_features, tx_scan,
    tx_sent, tx_stepped, ConfigSpace, Net, TxOutcome, TxRun, TxStep,
};
use crate::devices::virtio::net::rx_buffers::{
    law_chains_hold_all_bytes, law_frame_is_accounted_for, spread,
};
use crate::devices::virtio::queue::{empty_entries, ChainView, InvalidAvailIdx, UsedElement};
use crate::rate_limiter::{
    consumed_op, law_an_operation_costs_one_token_and_its_bytes, RateLimiter,
};
use crate::vstate::guest_memory::{bytes16, GuestMemory};

verus! {

/// Whether a limiter has no limits.
pub open spec fn no_limits(limiter: RateLimiter) -> bool {
    limiter.bandwidth is None && limiter.ops is None && !limiter.timer_active
}

/// Whether the bytes of a chain can be read: the device may write to none of its buffers, and each
/// lies in one piece of memory.
pub open spec fn readable(chain: ChainView, mem: GuestMemory) -> bool {
    forall|d: int|
        0 <= d < chain.descs.len() ==> !(#[trigger] chain.descs[d]).write_only && mem.has_slice(
            chain.descs[d].addr as int,
            chain.descs[d].len as int,
        )
}

/// Whether a chain holds a frame: it can be read, and is at least as long as the header of 12 bytes
/// and at most 65562 bytes long.
pub open spec fn holds_frame(chain: ChainView, mem: GuestMemory) -> bool {
    readable(chain, mem) && 12 <= total(pieces_of(chain.descs)) <= 65562
}

/// The byte at a position of a chain.
pub open spec fn byte_of(chain: ChainView, mem: GuestMemory, pos: int) -> u8 {
    mem.at(addr_at(pieces_of(chain.descs), pos))
}

proof fn lemma_scan(chains: Seq<ChainView>, mem: GuestMemory, limiter: RateLimiter, i: int)
    requires
        no_limits(limiter),
        0 <= i <= chains.len(),
        forall|j: int| 0 <= j < i ==> !holds_frame(#[trigger] chains[j], mem),
        i < chains.len() ==> holds_frame(chains[i], mem),
    ensures
        ({
            let scan = tx_scan(chains, mem, limiter);
            &&& scan.used == chains.take(i).map_values(|c: ChainView| c.index)
            &&& scan.limiter == limiter
            &&& scan.taken == (if i < chains.len() {
                i + 1
            } else {
                i
            })
            &&& scan.outcome == (if i < chains.len() {
                TxOutcome::Frame(chains[i])
            } else {
                TxOutcome::Exhausted
            })
        }),
    decreases chains.len(),
{
    let scan = tx_scan(chains, mem, limiter);
    let heads = chains.take(i).map_values(|c: ChainView| c.index);
    if chains.len() > 0 {
        let len = total(pieces_of(chains[0].descs));
        law_which_chains_can_be_read(chains[0].descs, mem);
        lemma_total_nonneg(pieces_of(chains[0].descs));
        if len <= 65562 {
            law_an_operation_costs_one_token_and_its_bytes(limiter, len as u64);
            assert(consumed_op(limiter, len as u64) == limiter);
        }
        if i > 0 {
            assert(!holds_frame(chains[0], mem));
            let tail = chains.skip(1);
            assert forall|j: int| 0 <= j < i - 1 implies !holds_frame(
                #[trigger] tail[j],
                mem,
            ) by {
                assert(tail[j] == chains[j + 1]);
            }
            lemma_scan(tail, mem, limiter, i - 1);
            let rest = tx_scan(tail, mem, limiter);
            assert(scan.used == seq![chains[0].index] + rest.used);
            assert(scan.used =~= heads);
        } else {
            assert(scan.used =~= heads);
        }
    } else {
        assert(scan.used =~= heads);
    }
}

/// Without limits, the first chain on the queue that holds a frame is the next frame. The chains
/// before it are given back to the guest unsent. The headers of the frame start behind the first
/// 12 bytes and are at most 42 bytes. It is noted where the frame claims another sender than the
/// guest's address: that is in the seventh to the twelfth byte of the frame.
pub proof fn law_frames_are_sent_in_order(
    before: Net,
    after: Net,
    mem: GuestMemory,
    pending: Option<u16>,
    r: Result<TxStep, InvalidAvailIdx>,
    i: int,
)
    requires
        before.tx_queue.wf(),
        tx_stepped(before, after, mem, pending, r),
        before.tx_queue.pending() <= before.tx_queue.size,
        no_limits(before.tx_rate_limiter),
        0 <= i < before.tx_queue.waiting().len(),
        holds_frame(before.tx_queue.waiting()[i], mem),
        forall|j: int| 0 <= j < i ==> !holds_frame(#[trigger] before.tx_queue.waiting()[j], mem),
    ensures
        ({
            let chains = before.tx_queue.waiting();
            let frame_len = total(pieces_of(chains[i].descs)) - 12;
            &&& r matches Ok(TxStep::Frame { headers, spoofed })
            &&& pending == Some(chains[i].index)
            &&& after.tx_buffer.vecs@ == pieces_of(chains[i].descs)
            &&& after.tx_queue.next_avail == before.tx_queue.next_avail + i + 1
            &&& after.tx_queue.used@.len() == before.tx_queue.used@.len() + i
            &&& forall|j: int|
                0 <= j < i ==> #[trigger] after.tx_queue.used@[before.tx_queue.used@.len() + j] == (
                UsedElement { id: chains[j].index, len: 0 })
            &&& headers@.len() == (if frame_len < 42 {
                frame_len
            } else {
                42
            })
            &&& forall|k: int|
                0 <= k < headers@.len() ==> #[trigger] headers@[k] == byte_of(
                    chains[i],
                    mem,
                    12 + k,
                )
            &&& before.guest_mac is None ==> !spoofed
            &&& before.guest_mac matches Some(mac) ==> (spoofed <==> frame_len >= 14 && !(
            byte_of(chains[i], mem, 18) == mac.b0 && byte_of(chains[i], mem, 19) == mac.b1
                && byte_of(chains[i], mem, 20) == mac.b2 && byte_of(chains[i], mem, 21) == mac.b3
                && byte_of(chains[i], mem, 22) == mac.b4 && byte_of(chains[i], mem, 23) == mac.b5))
        }),
{
    let chains = before.tx_queue.waiting();
    lemma_scan(chains, mem, before.tx_rate_limiter, i);
    let heads = chains.take(i).map_values(|c: ChainView| c.index);
    assert forall|j: int| 0 <= j < i implies #[trigger] after.tx_queue.used@[before.tx_queue.used@.len()
        + j] == (UsedElement { id: chains[j].index, len: 0 }) by {
        assert(heads[j] == chains[j].index);
        assert(empty_entries(heads)[j] == (UsedElement { id: heads[j], len: 0 }));
    }
    match r {
        Ok(TxStep::Frame { headers, spoofed }) => {
            assert forall|k: int| 0 <= k < headers@.len() implies #[trigger] headers@[k] == byte_of(
                chains[i],
                mem,
                12 + k,
            ) by {}
            match before.guest_mac {
                Some(mac) => {
                    if headers@.len() >= 14 {
                        let sender = headers@.subrange(6, 12);
                        assert forall|k: int| 0 <= k < 6 implies sender[k] == #[trigger] headers@[6
                            + k] by {}
                        assert(sender[0] == headers@[6] && sender[1] == headers@[7] && sender[2]
                            == headers@[8] && sender[3] == headers@[9] && sender[4] == headers@[10]
                            && sender[5] == headers@[11]);
                        if headers@[6] == mac.b0 && headers@[7] == mac.b1 && headers@[8] == mac.b2
                            && headers@[9] == mac.b3 && headers@[10] == mac.b4 && headers@[11]
                            == mac.b5 {
                            assert(sender =~= mac.bytes());
                        } else {
                            assert(mac.bytes()[0] == mac.b0 && mac.bytes()[1] == mac.b1
                                && mac.bytes()[2] == mac.b2 && mac.bytes()[3] == mac.b3
                                && mac.bytes()[4] == mac.b4 && mac.bytes()[5] == mac.b5);
                        }
                    }
                },
                None => {},
            }
        },
        _ => {},
    }
}

/// Where no chain on the queue holds a frame, nothing is sent, and without limits all chains are
/// given back.
pub proof fn law_queue_without_frames_is_emptied(
    before: Net,
    after: Net,
    mem: GuestMemory,
    pending: Option<u16>,
    r: Result<TxStep, InvalidAvailIdx>,
)
    requires
        before.tx_queue.wf(),
        tx_stepped(before, after, mem, pending, r),
        before.tx_queue.pending() <= before.tx_queue.size,
        no_limits(before.tx_rate_limiter),
        forall|j: int|
            0 <= j < before.tx_queue.waiting().len() ==> !holds_frame(
                #[trigger] before.tx_queue.waiting()[j],
                mem,
            ),
    ensures
        r matches Ok(step) && step is Exhausted,
        pending is None,
        after.tx_queue.next_avail == before.tx_queue.avail@.len(),
        after.tx_queue.used@.len() == before.tx_queue.used@.len() + before.tx_queue.waiting().len(),
{
    lemma_scan(
        before.tx_queue.waiting(),
        mem,
        before.tx_rate_limiter,
        before.tx_queue.waiting().len() as int,
    );
}

/// While the limiter blocks, a frame at the front of the queue stays there.
pub proof fn law_blocked_frames_stay_on_the_queue(
    before: Net,
    after: Net,
    mem: GuestMemory,
    pending: Option<u16>,
    r: Result<TxStep, InvalidAvailIdx>,
)
    requires
        tx_stepped(before, after, mem, pending, r),
        before.tx_queue.pending() <= before.tx_queue.size,
        before.tx_rate_limiter.timer_active,
        before.tx_queue.waiting().len() > 0,
        holds_frame(before.tx_queue.waiting()[0], mem),
    ensures
        r matches Ok(step) && step is Throttled,
        pending is None,
        after.tx_queue.next_avail == before.tx_queue.next_avail,
        after.tx_queue.used@ == before.tx_queue.used@,
        after.tx_rate_limiter == before.tx_rate_limiter,
{
    law_which_chains_can_be_read(before.tx_queue.waiting()[0].descs, mem);
    assert(empty_entries(seq![]) =~= Seq::<UsedElement>::empty());
}

/// A frame that leaves the machine is all bytes of its chain, and costs its tokens. A frame for the
/// metadata service is the bytes behind the first 12, and a limiter that held the tokens without a
/// burst holds them again. Either way the guest gets the chain back.
pub proof fn law_frames_for_the_metadata_service_are_free(
    before: Net,
    after: Net,
    mem: GuestMemory,
    run: TxRun,
    next: TxRun,
    to_mmds: bool,
    data: Seq<u8>,
    limiter: RateLimiter,
)
    requires
        tx_sent(before, after, mem, run, next, to_mmds, data),
        run.pending is Some,
        before.tx_buffer.wf(),
        before.tx_buffer.len >= 12,
        before.tx_rate_limiter == consumed_op(limiter, before.tx_buffer.len as u64),
        !limiter.timer_active,
        limiter.ops matches Some(b) ==> b.one_time_burst == 0 && 1 <= b.budget <= b.size,
        limiter.bandwidth matches Some(b) ==> b.one_time_burst == 0 && before.tx_buffer.len
            <= b.budget <= b.size,
    ensures
        after.tx_rate_limiter == (if to_mmds {
            limiter
        } else {
            before.tx_rate_limiter
        }),
        data.len() == (if to_mmds {
            before.tx_buffer.len - 12
        } else {
            before.tx_buffer.len as int
        }),
        forall|k: int|
            0 <= k < data.len() ==> #[trigger] data[k] == mem.at(
                addr_at(
                    before.tx_buffer.vecs@,
                    if to_mmds {
                        12 + k
                    } else {
                        k
                    },
                ),
            ),
        after.tx_queue.used@.len() == before.tx_queue.used@.len() + 1,
        after.tx_queue.used@.last() == (UsedElement { id: run.pending->0, len: 0 }),
        next.process_rx <==> run.process_rx || to_mmds && before.rx_buffer.used_bytes == 0,
{
    crate::rate_limiter::law_an_operation_is_given_back(limiter, before.tx_buffer.len as u64);
}

/// Every chain that a frame takes up is full but for the last one.
proof fn lemma_full_chains(chains: Seq<ParsedDescriptorChain>, bytes: int, i: int)
    requires
        0 <= bytes <= u32::MAX,
        0 <= i < spread(chains, bytes).len() - 1,
    ensures
        i < chains.len(),
        spread(chains, bytes)[i].len == chains[i].length,
    decreases chains.len(),
{
    if chains.len() > 0 {
        let here = if bytes < chains[0].length {
            bytes
        } else {
            chains[0].length as int
        };
        if bytes - here != 0 && i > 0 {
            let rest = spread(chains.skip(1), bytes - here);
            assert(spread(chains, bytes)[i] == rest[i - 1]);
            lemma_full_chains(chains.skip(1), bytes - here, i - 1);
        }
    }
}

/// A frame that is received is in the buffers of the guest, byte by byte, but for the eleventh and
/// the twelfth byte, which hold the number of chains that it takes up. These chains are noted in
/// order, with the bytes that they got, and all but the last one are full.
pub proof fn law_received_frames_are_in_the_buffers(
    before: Net,
    after: Net,
    mem: GuestMemory,
    mid: GuestMemory,
    last: GuestMemory,
    data: Seq<u8>,
    k: int,
)
    requires
        before.rx_buffer.wf(),
        received(before, after, mem, mid, last, data),
        12 <= data.len() <= before.rx_buffer.iovec.len,
        before.rx_buffer.parsed_descriptors@.len() <= 0xffff,
        forall|p: int, q: int|
            0 <= p < q < data.len() ==> #[trigger] addr_at(before.rx_buffer.iovec.vecs@, p)
                != #[trigger] addr_at(before.rx_buffer.iovec.vecs@, q),
        forall|p: int|
            0 <= p < data.len() ==> mem.has(#[trigger] addr_at(before.rx_buffer.iovec.vecs@, p)),
        0 <= k < data.len(),
    ensures
        ({
            let chains = before.rx_buffer.parsed_descriptors@;
            let noted = after.rx_queue.staged@.skip(before.rx_queue.staged@.len() as int);
            let n = noted.len() as int;
            &&& last.at(addr_at(before.rx_buffer.iovec.vecs@, k)) == (if k == 10 {
                n % 256
            } else if k == 11 {
                n / 256
            } else {
                data[k] as int
            })
            &&& 0 < n <= chains.len()
            &&& after.rx_buffer.parsed_descriptors@ == chains.skip(n)
            &&& forall|i: int|
                0 <= i < n ==> (#[trigger] noted[i]).id == chains[i].head_index && (i < n - 1
                    ==> noted[i].len == chains[i].length)
            &&& crate::devices::virtio::net::rx_buffers::bytes_of(noted) == data.len()
        }),
{
    let chains = before.rx_buffer.parsed_descriptors@;
    let vecs = before.rx_buffer.iovec.vecs@;
    let entries = spread(chains, data.len() as int);
    let noted = after.rx_queue.staged@.skip(before.rx_queue.staged@.len() as int);
    assert(noted =~= entries);
    let n = entries.len() as int;
    law_chains_hold_all_bytes(vecs, chains);
    assert(chains.len() > 0);
    law_frame_is_accounted_for(chains, data.len() as int);
    assert forall|i: int| 0 <= i < n implies (#[trigger] noted[i]).id == chains[i].head_index && (i
        < n - 1 ==> noted[i].len == chains[i].length) by {
        if i < n - 1 {
            lemma_full_chains(chains, data.len() as int, i);
        }
    }
    let a = addr_at(vecs, k);
    assert(addr_at(vecs, 0 + k) == a);
    assert(mid.at(a) == data[k]) by {
        assert forall|l: int| k < l < data.len() implies #[trigger] addr_at(vecs, 0 + l) != addr_at(
            vecs,
            0 + k,
        ) by {}
    }
    let count = bytes16(n as u16);
    if k == 10 || k == 11 {
        let at = k - 10;
        assert(addr_at(vecs, 10 + at) == a);
        assert forall|l: int| at < l < 2 implies #[trigger] addr_at(vecs, 10 + l) != addr_at(
            vecs,
            10 + at,
        ) by {}
        assert(last.at(addr_at(vecs, 10 + at)) == count[at]);
    } else {
        mid.lemma_same_shape(mem);
        assert(mid.has(a));
        assert forall|l: int| 0 <= l < 2 implies #[trigger] addr_at(vecs, 10 + l) != a by {
            assert(addr_at(vecs, 10 + l) != addr_at(vecs, k));
        }
    }
}

/// A chain of buffers for frames that waits alone is kept for the next frames if the device may
/// write to all of its buffers, each lies in one piece of memory, it is at least as long as is asked
/// for, and there is room for it among the 256 buffers that can be kept. One that is too short is
/// given back.
pub proof fn law_buffers_for_frames_are_kept(
    before: Net,
    after: Net,
    mem: GuestMemory,
    r: Result<(), InvalidAvailIdx>,
)
    requires
        rx_parsed(before, after, mem, r),
        before.rx_buffer.wf(),
        before.rx_queue.pending() <= before.rx_queue.size,
        before.rx_queue.waiting().len() == 1,
        before.rx_queue.waiting()[0].descs.len() > 0,
        before.rx_buffer.iovec.vecs@.len() + before.rx_queue.waiting()[0].descs.len() <= 256,
        forall|d: int|
            0 <= d < before.rx_queue.waiting()[0].descs.len()
                ==> (#[trigger] before.rx_queue.waiting()[0].descs[d]).write_only && mem.has_slice(
                before.rx_queue.waiting()[0].descs[d].addr as int,
                before.rx_queue.waiting()[0].descs[d].len as int,
            ),
        before.rx_buffer.iovec.len + total(pieces_of(before.rx_queue.waiting()[0].descs))
            <= u32::MAX,
    ensures
        ({
            let chain = before.rx_queue.waiting()[0];
            let len = total(pieces_of(chain.descs));
            let kept = after.rx_buffer.parsed_descriptors@;
            &&& r is Ok
            &&& after.rx_queue.next_avail == before.rx_queue.next_avail + 1
            &&& len >= before.rx_buffer.min_buffer_size ==> {
                &&& kept.len() == before.rx_buffer.parsed_descriptors@.len() + 1
                &&& kept.last().head_index == chain.index
                &&& kept.last().length == len
                &&& after.rx_buffer.iovec.vecs@ == before.rx_buffer.iovec.vecs@ + pieces_of(
                    chain.descs,
                )
                &&& after.rx_queue.staged@ == before.rx_queue.staged@
            }
            &&& len < before.rx_buffer.min_buffer_size ==> {
                &&& kept == before.rx_buffer.parsed_descriptors@
                &&& after.rx_buffer.iovec.vecs@ == before.rx_buffer.iovec.vecs@
                &&& after.rx_queue.staged@ == before.rx_queue.staged@.push(
                    UsedElement { id: chain.index, len: 0 },
                )
            }
        }),
{
    let chains = before.rx_queue.waiting();
    let chain = chains[0];
    let vecs = before.rx_buffer.iovec.vecs@;
    let min = before.rx_buffer.min_buffer_size;
    lemma_total_nonneg(vecs);
    lemma_total_nonneg(pieces_of(chain.descs));
    law_which_chains_can_be_written(chain.descs, mem, 256 - vecs.len());
    let run = rx_parse(chains, mem, vecs, min);
    assert(chains.skip(1).len() == 0);
    let short = rx_parse(chains.skip(1), mem, vecs, min);
    assert(short.taken == 0 && short.staged.len() == 0 && short.parsed.len() == 0);
    let long = rx_parse(chains.skip(1), mem, vecs + pieces_of(chain.descs), min);
    assert(long.taken == 0 && long.staged.len() == 0 && long.parsed.len() == 0);
    if total(pieces_of(chain.descs)) >= min {
        assert(run.staged.len() == 0);
        assert(after.rx_queue.staged@ =~= before.rx_queue.staged@);
        assert(run.parsed.len() == 1);
    } else {
        assert(run.staged =~= seq![UsedElement { id: chain.index, len: 0 }]);
        assert(after.rx_buffer.parsed_descriptors@ =~= before.rx_buffer.parsed_descriptors@);
    }
}

/// A frame that waits for the limiter is handed over to the guest once the limiter allows it, and
/// then only once: its chains are in the used ring and no longer noted.
pub proof fn law_waiting_frame_is_handed_over_once(before: Net, after: Net, r: bool)
    requires
        rx_resumed(before, after, r),
        before.rx_buffer.used_bytes > 0,
    ensures
        r ==> {
            &&& after.rx_queue.used@ == before.rx_queue.used@ + before.rx_queue.staged@
            &&& after.rx_queue.staged@.len() == 0
            &&& after.rx_buffer.used_bytes == 0
        },
        !r ==> after.rx_queue == before.rx_queue && after.rx_buffer == before.rx_buffer,
        no_limits(before.rx_rate_limiter) ==> r,
        before.rx_rate_limiter.timer_active ==> !r,
{
    if no_limits(before.rx_rate_limiter) {
        law_an_operation_costs_one_token_and_its_bytes(
            before.rx_rate_limiter,
            before.rx_buffer.used_bytes as u64,
        );
    }
}

/// Which features a network device offers: checksums (0, 1), segments (7, 8, 10, 11, 12, 14),
/// merged buffers (15), event indices (29) and version one (32), with the largest unit (3) and the
/// address (5) as far as they are given.
pub proof fn law_offered_features(mtu: bool, mac: bool, n: u32)
    requires
        n < 64,
    ensures
        offered(mtu, mac) & (1u64 << n) != 0 <==> n == 0 || n == 1 || n == 7 || n == 8 || n == 10
            || n == 11 || n == 12 || n == 14 || n == 15 || n == 29 || n == 32 || n == 3 && mtu || n
            == 5 && mac,
{
    let m = if mtu {
        1u64 << 3
    } else {
        0u64
    };
    let a = if mac {
        1u64 << 5
    } else {
        0u64
    };
    assert((((1u64 << 1) | (1u64 << 0) | (1u64 << 7) | (1u64 << 8) | (1u64 << 10) | (1u64 << 11) | (
    1u64 << 12) | (1u64 << 14) | (1u64 << 32) | (1u64 << 15) | (1u64 << 29) | m | a) & (1u64 << n)
        != 0) == (n == 0 || n == 1 || n == 7 || n == 8 || n == 10 || n == 11 || n == 12 || n == 14
        || n == 15 || n == 29 || n == 32 || (n == 3 && mtu) || (n == 5 && mac))) by (bit_vector)
        requires
            n < 64,
            m == (if mtu {
                1u64 << 3
            } else {
                0u64
            }),
            a == (if mac {
                1u64 << 5
            } else {
                0u64
            }),
    ;
}

/// What the host's side of the interface is told to leave to the guest: checksums (1) if it
/// accepted feature 1, segments of version four (2) for feature 7, of version six (4) for feature 8,
/// and datagrams (16) for feature 10.
pub proof fn law_offloads_follow_accepted_features(features: u64)
    ensures
        ({
            let flags = tap_features(features);
            &&& flags & 1 != 0 <==> features & (1u64 << 1) != 0
            &&& flags & 2 != 0 <==> features & (1u64 << 7) != 0
            &&& flags & 4 != 0 <==> features & (1u64 << 8) != 0
            &&& flags & 16 != 0 <==> features & (1u64 << 10) != 0
            &&& flags & !23u32 == 0
        }),
{
    let (a, b, c, d) = (
        features & (1u64 << 1) != 0,
        features & (1u64 << 10) != 0,
        features & (1u64 << 7) != 0,
        features & (1u64 << 8) != 0,
    );
    let (x, w, y, z) = (
        if a {
            1u32
        } else {
            0
        },
        if b {
            16u32
        } else {
            0
        },
        if c {
            2u32
        } else {
            0
        },
        if d {
            4u32
        } else {
            0
        },
    );
    assert(((x | w | y | z) & 1 != 0) == (x == 1) && ((x | w | y | z) & 2 != 0) == (y
        == 2) && ((x | w | y | z) & 4 != 0) == (z == 4) && ((x | w | y | z) & 16 != 0)
        == (w == 16) && (x | w | y | z) & !23u32 == 0) by (bit_vector)
        requires
            x == 0 || x == 1,
            w == 0 || w == 16,
            y == 0 || y == 2,
            z == 0 || z == 4,
    ;
}

/// A chain for frames has to hold 12 bytes if frames may be spread over chains (feature 15), else
/// 65562 bytes if frames may be joined (features 7, 8 and 10), else 1526.
pub proof fn law_smallest_buffer(features: u64)
    ensures
        min_rx_buffer_size(features) == (if features & (1u64 << 15) != 0 {
            12u32
        } else if features & (1u64 << 7) != 0 || features & (1u64 << 8) != 0 || features & (1u64
            << 10) != 0 {
            65562
        } else {
            1526
        }),
{
}

/// The configuration space of a network device starts with the six bytes of its address. The
/// largest unit is in the eleventh and the twelfth byte.
pub proof fn law_configuration_of_a_network_device(c: ConfigSpace)
    ensures
        c.bytes().len() == 12,
        c.bytes()[0] == c.guest_mac.b0,
        c.bytes()[1] == c.guest_mac.b1,
        c.bytes()[2] == c.guest_mac.b2,
        c.bytes()[3] == c.guest_mac.b3,
        c.bytes()[4] == c.guest_mac.b4,
        c.bytes()[5] == c.guest_mac.b5,
        c.mtu == c.bytes()[10] + 256 * c.bytes()[11],
{
}

/// A frame that was sent has its chain given back with nothing written, and nothing else about the
/// device changes but what a frame for the metadata service gives back to the limiter.
pub proof fn law_sent_frames_give_back_their_chain(
    before: Net,
    after: Net,
    mem: GuestMemory,
    run: TxRun,
    next: TxRun,
    to_mmds: bool,
    data: Seq<u8>,
)
    requires
        tx_sent(before, after, mem, run, next, to_mmds, data),
        run.pending is Some,
    ensures
        after.tx_queue.used@.len() == before.tx_queue.used@.len() + 1,
        after.tx_queue.used@.last().id == run.pending->0,
        after.tx_queue.used@.last().len == 0,
        after.tx_queue.used@.drop_last() == before.tx_queue.used@,
        after.tx_queue.avail == before.tx_queue.avail,
        after.tx_queue.next_avail == before.tx_queue.next_avail,
        after.tx_queue.size == before.tx_queue.size,
        after.tx_queue.notify == before.tx_queue.notify,
        after.tx_queue.staged == before.tx_queue.staged,
        after.tx_queue.published == before.tx_queue.published,
        !to_mmds ==> after.tx_rate_limiter == before.tx_rate_limiter,
        after.rx_queue == before.rx_queue,
        after.rx_buffer == before.rx_buffer,
        after.rx_rate_limiter == before.rx_rate_limiter,
        next.pending is None,
        run.process_rx ==> next.process_rx,
        !to_mmds ==> next.process_rx == run.process_rx,
{
    assert(after.tx_queue.used@.drop_last() =~= before.tx_queue.used@);
}

/// A received frame is shown to the driver only later: until then it is held in entries of its own,
/// one for each buffer that it takes, and the queue is as it was.
pub proof fn law_received_frames_are_held(
    before: Net,
    after: Net,
    mem: GuestMemory,
    mid: GuestMemory,
    last: GuestMemory,
    data: Seq<u8>,
)
    requires
        received(before, after, mem, mid, last, data),
    ensures
        after.rx_queue.used == before.rx_queue.used,
        after.rx_queue.published == before.rx_queue.published,
        after.rx_queue.avail == before.rx_queue.avail,
        after.rx_queue.next_avail == before.rx_queue.next_avail,
        after.rx_buffer.used_bytes == data.len(),
        after.rx_queue.staged@.len() - before.rx_queue.staged@.len()
            == after.rx_buffer.used_descriptors - before.rx_buffer.used_descriptors,
        after.rx_buffer.min_buffer_size == before.rx_buffer.min_buffer_size,
{
}

} // verus!
