//! Memory that the guest provides for frames that it receives.

use std::collections::VecDeque;

use vstd::prelude::*;

use crate::devices::virtio::iovec::{
    append_error, backed, lemma_total_add, pieces_of, total, IoVec,
    IoVecBufferMut, IoVecError, ParsedDescriptorChain,
};
use crate::devices::virtio::queue::{Descriptor, DescriptorChain, Queue, UsedElement};
use crate::vstate::guest_memory::{bytes16, to_le16, GuestMemory};

verus! {

/// The most pieces of memory that are held at once.
pub const NET_QUEUE_MAX_SIZE: u16 = 256;

/// Length of the virtio header of a frame.
pub const VNET_HDR_LEN: usize = 12;

/// Where the virtio header of a frame holds the number of buffers of the frame.
pub const NUM_BUFFERS_OFFSET: usize = 10;

/// Why a chain of buffers cannot be used for frames.
#[derive(Debug, Clone, Copy, PartialEq, Eq, Structural)]
pub enum AddRxBufferError {
    /// The device cannot write to the buffers.
    Parsing(IoVecError),
    /// The buffers are too small.
    BufferTooSmall,
}

/// The number of pieces of the first `n` chains.
pub open spec fn pieces_in(chains: Seq<ParsedDescriptorChain>, n: int) -> int
    decreases n,
{
    if n <= 0 {
        0
    } else {
        pieces_in(chains, n - 1) + chains[n - 1].nr_iovecs
    }
}

/// The number of bytes of the first `n` chains.
pub open spec fn bytes_in(chains: Seq<ParsedDescriptorChain>, n: int) -> int
    decreases n,
{
    if n <= 0 {
        0
    } else {
        bytes_in(chains, n - 1) + chains[n - 1].length
    }
}

/// Whether the pieces of memory are those of the chains, one chain after the other.
pub open spec fn chains_match(vecs: Seq<IoVec>, chains: Seq<ParsedDescriptorChain>) -> bool
    decreases chains.len(),
{
    if chains.len() == 0 {
        vecs.len() == 0
    } else {
        &&& chains[0].nr_iovecs <= vecs.len()
        &&& chains[0].length == total(vecs.take(chains[0].nr_iovecs as int))
        &&& chains_match(vecs.skip(chains[0].nr_iovecs as int), chains.skip(1))
    }
}

proof fn lemma_chains_push(
    vecs: Seq<IoVec>,
    chains: Seq<ParsedDescriptorChain>,
    pieces: Seq<IoVec>,
    c: ParsedDescriptorChain,
)
    requires
        chains_match(vecs, chains),
        c.nr_iovecs == pieces.len(),
        c.length == total(pieces),
    ensures
        chains_match(vecs + pieces, chains.push(c)),
    decreases chains.len(),
{
    let all = vecs + pieces;
    let more = chains.push(c);
    if chains.len() == 0 {
        reveal_with_fuel(chains_match, 2);
        assert(all =~= pieces);
        assert(pieces.take(pieces.len() as int) =~= pieces);
        assert(all.skip(c.nr_iovecs as int).len() == 0);
        assert(more.skip(1).len() == 0);
    } else {
        let n = chains[0].nr_iovecs as int;
        lemma_chains_push(vecs.skip(n), chains.skip(1), pieces, c);
        assert(all.take(n) =~= vecs.take(n));
        assert(all.skip(n) =~= vecs.skip(n) + pieces);
        assert(more.skip(1) =~= chains.skip(1).push(c));
    }
}

proof fn lemma_sums_shift(chains: Seq<ParsedDescriptorChain>, n: int)
    requires
        0 <= n < chains.len(),
    ensures
        pieces_in(chains, n + 1) == chains[0].nr_iovecs + pieces_in(chains.skip(1), n),
        bytes_in(chains, n + 1) == chains[0].length + bytes_in(chains.skip(1), n),
        pieces_in(chains, n + 1) >= 0,
        bytes_in(chains, n + 1) >= 0,
    decreases n,
{
    reveal_with_fuel(pieces_in, 2);
    reveal_with_fuel(bytes_in, 2);
    if n > 0 {
        lemma_sums_shift(chains, n - 1);
        assert(chains.skip(1)[n - 1] == chains[n]);
    }
}

/// The pieces of memory hold as many bytes as the chains say.
pub proof fn law_chains_hold_all_bytes(vecs: Seq<IoVec>, chains: Seq<ParsedDescriptorChain>)
    requires
        chains_match(vecs, chains),
    ensures
        total(vecs) == bytes_in(chains, chains.len() as int),
        vecs.len() == pieces_in(chains, chains.len() as int),
    decreases chains.len(),
{
    if chains.len() > 0 {
        let n = chains[0].nr_iovecs as int;
        law_chains_hold_all_bytes(vecs.skip(n), chains.skip(1));
        assert(vecs =~= vecs.take(n) + vecs.skip(n));
        lemma_total_add(vecs.take(n), vecs.skip(n));
        lemma_sums_shift(chains, chains.len() - 1);
    }
}

/// The used entries of a frame of so many bytes: the chains are filled one after the other, and the
/// first one is used in any case.
pub open spec fn spread(chains: Seq<ParsedDescriptorChain>, bytes: int) -> Seq<UsedElement>
    decreases chains.len(),
{
    if chains.len() == 0 {
        seq![]
    } else {
        let here = if bytes < chains[0].length {
            bytes
        } else {
            chains[0].length as int
        };
        let entry = UsedElement { id: chains[0].head_index, len: here as u32 };
        if bytes - here == 0 {
            seq![entry]
        } else {
            seq![entry] + spread(chains.skip(1), bytes - here)
        }
    }
}

/// The number of bytes that used entries speak of.
pub open spec fn bytes_of(entries: Seq<UsedElement>) -> int
    decreases entries.len(),
{
    if entries.len() == 0 {
        0
    } else {
        entries[0].len + bytes_of(entries.skip(1))
    }
}

/// A frame that fits into the chains is accounted for byte by byte, and in the order of the chains.
pub proof fn law_frame_is_accounted_for(chains: Seq<ParsedDescriptorChain>, bytes: int)
    requires
        chains.len() > 0,
        0 <= bytes <= bytes_in(chains, chains.len() as int),
        bytes <= u32::MAX,
    ensures
        bytes_of(spread(chains, bytes)) == bytes,
        0 < spread(chains, bytes).len() <= chains.len(),
        forall|i: int|
            0 <= i < spread(chains, bytes).len() ==> (#[trigger] spread(chains, bytes)[i]).id
                == chains[i].head_index,
    decreases chains.len(),
{
    let here = if bytes < chains[0].length {
        bytes
    } else {
        chains[0].length as int
    };
    let entry = UsedElement { id: chains[0].head_index, len: here as u32 };
    let all = spread(chains, bytes);
    lemma_sums_shift(chains, chains.len() - 1);
    if bytes - here == 0 {
        assert(all == seq![entry]);
        reveal_with_fuel(bytes_of, 2);
        assert(all.skip(1).len() == 0);
    } else {
        let rest = spread(chains.skip(1), bytes - here);
        if chains.len() == 1 {
            assert(bytes_in(chains.skip(1), 0) == 0);
        }
        law_frame_is_accounted_for(chains.skip(1), bytes - here);
        assert(all.skip(1) =~= rest);
        assert forall|i: int| 0 <= i < all.len() implies (#[trigger] all[i]).id
            == chains[i].head_index by {
            if i > 0 {
                assert(all[i] == rest[i - 1]);
                assert(chains.skip(1)[i - 1] == chains[i]);
            }
        }
    }
}

/// Why a chain cannot be appended to pieces of memory of `len` bytes.
pub open spec fn refused(vecs: Seq<IoVec>, len: int, descs: Seq<Descriptor>, mem: GuestMemory) -> Option<
    IoVecError,
> {
    match append_error(descs, mem, NET_QUEUE_MAX_SIZE - vecs.len(), 0) {
        Some(e) => Some(e),
        None => if len + total(pieces_of(descs)) > u32::MAX {
            Some(IoVecError::OverflowedDescriptor)
        } else {
            None
        },
    }
}

/// Memory that the guest provides for frames that it receives.
#[derive(Debug)]
pub struct RxBuffers {
    /// The least size of a chain of buffers.
    pub min_buffer_size: u32,
    /// The memory.
    pub iovec: IoVecBufferMut<NET_QUEUE_MAX_SIZE>,
    /// The chains that the memory belongs to, in order.
    pub parsed_descriptors: VecDeque<ParsedDescriptorChain>,
    /// Number of used chains that the guest does not know of yet.
    pub used_descriptors: u16,
    /// Number of bytes of a frame that the guest does not know of yet.
    pub used_bytes: u32,
}

impl RxBuffers {
    /// The memory is that of the chains.
    pub open spec fn wf(self) -> bool {
        &&& self.iovec.wf()
        &&& chains_match(self.iovec.vecs@, self.parsed_descriptors@)
    }

    /// The chains are those of a queue that holds entries for the used chains.
    pub open spec fn serves(self, queue: Queue) -> bool {
        &&& queue.wf()
        &&& self.used_descriptors == queue.staged@.len()
        &&& forall|i: int|
            0 <= i < self.parsed_descriptors@.len() ==> (#[trigger] self.parsed_descriptors@[i]).head_index
                < queue.size
    }

    /// Whether there is no memory, and no least size is asked of it.
    pub open spec fn is_unused(self) -> bool {
        &&& self.min_buffer_size == 0
        &&& self.iovec.vecs@.len() == 0
        &&& self.iovec.len == 0
        &&& self.parsed_descriptors@.len() == 0
        &&& self.used_descriptors == 0
        &&& self.used_bytes == 0
    }

    /// No memory.
    pub fn new() -> (r: RxBuffers)
        ensures
            r.wf(),
            r.is_unused(),
    {
        RxBuffers {
            min_buffer_size: 0,
            iovec: IoVecBufferMut::new(),
            parsed_descriptors: VecDeque::new(),
            used_descriptors: 0,
            used_bytes: 0,
        }
    }

    /// Adds the memory of a chain.
    pub fn add_buffer(&mut self, mem: &GuestMemory, head: &DescriptorChain) -> (r: Result<
        (),
        AddRxBufferError,
    >)
        requires
            mem.wf(),
            old(self).wf(),
            head.rest@.len() < usize::MAX,
        ensures
            final(self).wf(),
            final(self).min_buffer_size == old(self).min_buffer_size,
            final(self).used_descriptors == old(self).used_descriptors,
            final(self).used_bytes == old(self).used_bytes,
            r == (match refused(
                old(self).iovec.vecs@,
                old(self).iovec.len as int,
                head@.descs,
                *mem,
            ) {
                Some(e) => Err(AddRxBufferError::Parsing(e)),
                None => if total(pieces_of(head@.descs)) < old(self).min_buffer_size {
                    Err(AddRxBufferError::BufferTooSmall)
                } else {
                    Ok(())
                },
            }),
            r is Err ==> {
                &&& final(self).iovec.vecs@ == old(self).iovec.vecs@
                &&& final(self).iovec.len == old(self).iovec.len
                &&& final(self).parsed_descriptors@ == old(self).parsed_descriptors@
            },
            r is Ok ==> {
                &&& final(self).iovec.vecs@ == old(self).iovec.vecs@ + pieces_of(head@.descs)
                &&& final(self).iovec.len == old(self).iovec.len + total(pieces_of(head@.descs))
                &&& final(self).parsed_descriptors@ == old(self).parsed_descriptors@.push(
                    ParsedDescriptorChain {
                        head_index: head@.index,
                        length: total(pieces_of(head@.descs)) as u32,
                        nr_iovecs: head@.descs.len() as u16,
                    },
                )
                &&& backed(pieces_of(head@.descs), *mem)
            },
    {
        let ghost before = self.iovec.vecs@;
        let ghost pieces = pieces_of(head@.descs);
        let parsed = match self.iovec.append_descriptor_chain(mem, head) {
            Ok(parsed) => parsed,
            Err(e) => {
                return Err(AddRxBufferError::Parsing(e));
            },
        };
        if parsed.length < self.min_buffer_size {
            proof {
                assert((before + pieces).skip(before.len() as int) =~= pieces);
                assert((before + pieces).take(before.len() as int) =~= before);
            }
            self.iovec.drop_chain_back(&parsed);
            return Err(AddRxBufferError::BufferTooSmall);
        }
        proof {
            lemma_chains_push(before, self.parsed_descriptors@, pieces, parsed);
        }
        self.parsed_descriptors.push_back(parsed);
        Ok(())
    }

    /// The number of bytes that can be received.
    pub fn capacity(&self) -> (r: u32)
        ensures
            r == self.iovec.len,
    {
        self.iovec.len()
    }

    /// Says in the header of a frame how many chains the frame takes up.
    pub fn header_set_num_buffers(&self, mem: &mut GuestMemory, nr_descs: u16)
        requires
            self.wf(),
            old(mem).wf(),
            backed(self.iovec.vecs@, *old(mem)),
            self.iovec.len >= VNET_HDR_LEN,
        ensures
            final(mem).wf(),
            self.iovec.filled(
                *old(mem),
                *final(mem),
                bytes16(nr_descs),
                NUM_BUFFERS_OFFSET as int,
                2,
            ),
    {
        let bytes: Vec<u8> = to_le16(nr_descs);
        let _ = self.iovec.write_all_volatile_at(mem, bytes.as_slice(), NUM_BUFFERS_OFFSET);
    }

    /// Accounts for a frame of so many bytes. The guest does not know of it before the frame is
    /// finished.
    pub fn mark_used(&mut self, bytes_written: u32, rx_queue: &mut Queue, mem: &mut GuestMemory)
        requires
            old(self).wf(),
            old(self).serves(*old(rx_queue)),
            old(mem).wf(),
            backed(old(self).iovec.vecs@, *old(mem)),
            old(self).iovec.len >= VNET_HDR_LEN,
            old(self).used_descriptors + old(self).parsed_descriptors@.len() <= u16::MAX,
        ensures
            final(self).wf(),
            final(self).serves(*final(rx_queue)),
            final(mem).wf(),
            final(rx_queue).same_avail(*old(rx_queue)),
            final(rx_queue).used == old(rx_queue).used,
            final(rx_queue).published == old(rx_queue).published,
            final(self).min_buffer_size == old(self).min_buffer_size,
            final(self).used_bytes == bytes_written,
            ({
                let chains = old(self).parsed_descriptors@;
                let entries = spread(chains, bytes_written as int);
                let n = entries.len() as int;
                &&& n <= chains.len()
                &&& final(rx_queue).staged@ == old(rx_queue).staged@ + entries
                &&& final(self).used_descriptors == old(self).used_descriptors + n
                &&& final(self).parsed_descriptors@ == chains.skip(n)
                &&& final(self).iovec.vecs@ == old(self).iovec.vecs@.skip(pieces_in(chains, n))
                &&& final(self).iovec.len == old(self).iovec.len - bytes_in(chains, n)
                &&& old(self).iovec.filled(
                    *old(mem),
                    *final(mem),
                    bytes16(n as u16),
                    NUM_BUFFERS_OFFSET as int,
                    2,
                )
            }),
    {
        self.used_bytes = bytes_written;
        let ghost chains = self.parsed_descriptors@;
        let ghost whole = spread(chains, bytes_written as int);
        let ghost before = rx_queue.staged@;
        let ghost vecs = self.iovec.vecs@;
        let ghost len = self.iovec.len;
        let count: usize = self.parsed_descriptors.len();
        let mut left: u32 = bytes_written;
        let mut used_heads: u16 = 0;
        let mut more: bool = count > 0;
        let ghost mut done: Seq<UsedElement> = seq![];
        proof {
            assert(chains.skip(0) =~= chains);
            assert(done + whole =~= whole);
            assert(before + done =~= before);
        }
        while more
            invariant
                chains == self.parsed_descriptors@,
                count == chains.len(),
                used_heads <= count,
                more ==> used_heads < count,
                old(self).used_descriptors + count <= u16::MAX,
                self.used_descriptors == old(self).used_descriptors + used_heads,
                self.used_bytes == bytes_written,
                self.min_buffer_size == old(self).min_buffer_size,
                self.iovec == old(self).iovec,
                done.len() == used_heads,
                whole == done + (if more {
                    spread(chains.skip(used_heads as int), left as int)
                } else {
                    seq![]
                }),
                rx_queue.wf(),
                rx_queue.same_avail(*old(rx_queue)),
                rx_queue.used == old(rx_queue).used,
                rx_queue.published == old(rx_queue).published,
                rx_queue.staged@ == before + done,
                forall|i: int|
                    0 <= i < chains.len() ==> (#[trigger] chains[i]).head_index < rx_queue.size,
            decreases
                    count - used_heads + (if more {
                        1int
                    } else {
                        0
                    }),
        {
            let parsed = self.parsed_descriptors[used_heads as usize];
            let used_bytes: u32 = if left < parsed.length {
                left
            } else {
                parsed.length
            };
            let ghost entry = UsedElement { id: parsed.head_index, len: used_bytes };
            let _ = rx_queue.write_used_element(parsed.head_index, used_bytes);
            let ghost rest = chains.skip(used_heads as int);
            assert(rest[0] == parsed);
            assert(rest.skip(1) =~= chains.skip(used_heads + 1));
            left = left - used_bytes;
            self.used_descriptors = self.used_descriptors + 1;
            used_heads = used_heads + 1;
            more = left != 0 && (used_heads as usize) < count;
            proof {
                assert(rx_queue.staged@ =~= before + done.push(entry));
                if more {
                    assert(whole =~= done.push(entry) + spread(
                        chains.skip(used_heads as int),
                        left as int,
                    ));
                } else {
                    assert(spread(chains.skip(used_heads as int), left as int).len() == 0 || left
                        == 0);
                    assert(whole =~= done.push(entry) + Seq::<UsedElement>::empty());
                }
                done = done.push(entry);
            }
        }
        assert(whole =~= done);
        // The header is written before the chains are dropped, so that it goes to the first one.
        self.header_set_num_buffers(mem, used_heads);
        let mut i: u16 = 0;
        proof {
            assert(vecs.skip(0) =~= vecs);
            assert(chains.skip(0) =~= chains);
        }
        while i < used_heads
            invariant
                i <= used_heads,
                used_heads <= chains.len(),
                self.used_descriptors == old(self).used_descriptors + used_heads,
                self.used_bytes == bytes_written,
                self.min_buffer_size == old(self).min_buffer_size,
                self.iovec.wf(),
                self.parsed_descriptors@ == chains.skip(i as int),
                chains_match(self.iovec.vecs@, self.parsed_descriptors@),
                self.iovec.vecs@ == vecs.skip(pieces_in(chains, i as int)),
                0 <= pieces_in(chains, i as int) <= vecs.len(),
                self.iovec.len == len - bytes_in(chains, i as int),
            decreases used_heads - i,
        {
            match self.parsed_descriptors.pop_front() {
                Some(parsed) => {
                    let ghost now = self.iovec.vecs@;
                    assert(parsed == chains[i as int]);
                    assert(chains.skip(i as int)[0] == parsed);
                    self.iovec.drop_chain_front(&parsed);
                    proof {
                        assert(chains.skip(i as int).skip(1) =~= chains.skip(i + 1));
                        assert(self.parsed_descriptors@ =~= chains.skip(i + 1));
                        assert(now.skip(parsed.nr_iovecs as int) =~= vecs.skip(
                            pieces_in(chains, i + 1),
                        ));
                    }
                },
                None => {},
            }
            i = i + 1;
        }
        assert(forall|k: int|
            0 <= k < self.parsed_descriptors@.len() ==> (
            #[trigger] self.parsed_descriptors@[k]).head_index == chains[k + used_heads].head_index);
    }

    /// Lets the used ring hold the entries of the used chains.
    pub fn finish_frame(&mut self, rx_queue: &mut Queue)
        requires
            old(self).serves(*old(rx_queue)),
        ensures
            final(self).serves(*final(rx_queue)),
            final(self).used_descriptors == 0,
            final(self).used_bytes == 0,
            final(self).min_buffer_size == old(self).min_buffer_size,
            final(self).iovec == old(self).iovec,
            final(self).parsed_descriptors == old(self).parsed_descriptors,
            final(rx_queue).same_avail(*old(rx_queue)),
            final(rx_queue).used@ == old(rx_queue).used@ + old(rx_queue).staged@,
            final(rx_queue).staged@.len() == 0,
            final(rx_queue).published == old(rx_queue).published,
    {
        rx_queue.advance_next_used();
        self.used_descriptors = 0;
        self.used_bytes = 0;
    }

    /// The number of bytes of the first chain.
    pub fn single_chain_len(&self) -> (r: u32)
        requires
            self.parsed_descriptors@.len() > 0,
        ensures
            r == self.parsed_descriptors@[0].length,
    {
        self.parsed_descriptors[0].length
    }
}

} // verus!
