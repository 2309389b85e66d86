//! The entropy device model.

use aws_lc_rs::rand;
use vstd::prelude::*;

use crate::devices::virtio::device::{ActivateError, VIRTIO_F_VERSION_1};
use crate::devices::virtio::iovec::{
    addr_at, append_error, backed, filled_at, law_which_chains_can_be_written,
    lemma_append_error_same_shape, pieces_of, total, IoVecBufferMut,
};
use crate::devices::virtio::queue::{
    ChainView, InvalidAvailIdx, Queue, UsedElement, FIRECRACKER_MAX_QUEUE_SIZE,
};
use crate::rate_limiter::{consumed_op, grants_op, RateLimiter};
use crate::vstate::guest_memory::GuestMemory;

verus! {

/// The most bytes that one request is given.
pub const MAX_ENTROPY_BYTES: u32 = 0x1_0000;

/// Why a request is not served.
#[derive(Debug, Clone, Copy, PartialEq, Eq, Structural)]
pub enum EntropyError {
    /// There are no random bytes.
    Random,
}

/// `aws_lc_rs::rand::fill` overwrites bytes with random ones, and says whether it could. The number
/// of bytes stays the same. Which bytes come of it is a matter of chance.
#[verifier::external_body]
fn random_fill(bytes: &mut Vec<u8>) -> (filled: bool)
    ensures
        final(bytes)@.len() == old(bytes)@.len(),
{
    rand::fill(bytes.as_mut_slice()).is_ok()
}

/// The number of bytes that a request for `len` is given.
pub open spec fn granted(len: int) -> int {
    if len < MAX_ENTROPY_BYTES {
        len
    } else {
        MAX_ENTROPY_BYTES as int
    }
}

/// A virtio source of entropy.
#[derive(Debug)]
pub struct Entropy {
    /// Features on offer.
    pub avail_features: u64,
    /// Features that the driver accepted.
    pub acked_features: u64,
    /// Whether the device is active.
    pub activated: bool,
    /// The queue of requests.
    pub queue: Queue,
    /// Limits on requests.
    pub rate_limiter: RateLimiter,
    /// The buffer of the current request.
    pub buffer: IoVecBufferMut<FIRECRACKER_MAX_QUEUE_SIZE>,
}

/// Whether a chain holds a buffer that the device can write to.
pub open spec fn usable(c: ChainView, mem: GuestMemory) -> bool {
    append_error(c.descs, mem, FIRECRACKER_MAX_QUEUE_SIZE as int, 0) is None
}

/// How many of the chains are taken, and the limiter afterwards. A chain that cannot be used counts
/// for no limit, and one that the limiter refuses is left in the queue.
pub open spec fn entropy_scan(
    chains: Seq<ChainView>,
    mem: GuestMemory,
    limiter: RateLimiter,
) -> (nat, RateLimiter)
    decreases chains.len(),
{
    if chains.len() == 0 {
        (0, limiter)
    } else if usable(chains[0], mem) {
        let len = total(pieces_of(chains[0].descs)) as u64;
        if grants_op(limiter, len) {
            let rest = entropy_scan(chains.skip(1), mem, consumed_op(limiter, len));
            (rest.0 + 1, rest.1)
        } else {
            (0, consumed_op(limiter, len))
        }
    } else {
        let rest = entropy_scan(chains.skip(1), mem, limiter);
        (rest.0 + 1, rest.1)
    }
}

/// What comes of one chain, by the random bytes that there were for it: they are in its buffer, or
/// nothing is.
pub open spec fn entropy_step(
    c: ChainView,
    before: GuestMemory,
    after: GuestMemory,
    random: Option<Seq<u8>>,
    used: u32,
) -> bool {
    let vecs = pieces_of(c.descs);
    if usable(c, before) && total(vecs) > 0 && random is Some {
        let bytes = random->Some_0;
        &&& bytes.len() == granted(total(vecs))
        &&& used == bytes.len()
        &&& filled_at(vecs, before, after, bytes, 0, bytes.len() as int)
    } else {
        used == 0 && after == before
    }
}

/// Whether the guest memories `mems`, random bytes and used lengths are those of the chains, worked
/// on one after the other.
pub open spec fn entropy_trace(
    chains: Seq<ChainView>,
    mems: Seq<GuestMemory>,
    randoms: Seq<Option<Seq<u8>>>,
    used: Seq<u32>,
) -> bool {
    &&& mems.len() == chains.len() + 1
    &&& randoms.len() == chains.len()
    &&& used.len() == chains.len()
    &&& forall|i: int|
        0 <= i < chains.len() ==> #[trigger] entropy_step(
            chains[i],
            mems[i],
            mems[i + 1],
            randoms[i],
            used[i],
        )
}

/// The used entries of chains with given lengths.
pub open spec fn entropy_entries(chains: Seq<ChainView>, used: Seq<u32>) -> Seq<UsedElement> {
    Seq::new(chains.len(), |i: int| UsedElement { id: chains[i].index, len: used[i] })
}

/// No request is given more than the most bytes of a request, nor more than it asks for.
pub proof fn law_requests_are_bounded(
    c: ChainView,
    before: GuestMemory,
    after: GuestMemory,
    random: Option<Seq<u8>>,
    used: u32,
)
    requires
        entropy_step(c, before, after, random, used),
    ensures
        used <= MAX_ENTROPY_BYTES,
        used > 0 ==> used <= total(pieces_of(c.descs)),
{
}

impl Entropy {
    /// The queue and the buffer are well formed.
    pub open spec fn wf(self) -> bool {
        self.queue.wf()
    }

    /// A device with limits.
    pub fn new(rate_limiter: RateLimiter) -> (r: Entropy)
        ensures
            r.wf(),
            r.avail_features == 1u64 << VIRTIO_F_VERSION_1,
            r.acked_features == 0,
            !r.activated,
            r.queue.is_fresh(FIRECRACKER_MAX_QUEUE_SIZE),
            r.rate_limiter == rate_limiter,
            r.buffer.vecs@.len() == 0,
    {
        Entropy::new_with_queues(Queue::new(FIRECRACKER_MAX_QUEUE_SIZE), rate_limiter)
    }

    /// A device with limits and a given queue.
    pub fn new_with_queues(queue: Queue, rate_limiter: RateLimiter) -> (r: Entropy)
        ensures
            queue.wf() ==> r.wf(),
            r.avail_features == 1u64 << VIRTIO_F_VERSION_1,
            r.acked_features == 0,
            !r.activated,
            r.queue == queue,
            r.rate_limiter == rate_limiter,
            r.buffer.vecs@.len() == 0,
    {
        Entropy {
            avail_features: 1u64 << VIRTIO_F_VERSION_1,
            acked_features: 0,
            activated: false,
            queue,
            rate_limiter,
            buffer: IoVecBufferMut::new(),
        }
    }

    /// Serves the current request with random bytes, if there are any.
    pub fn serve(&self, mem: &mut GuestMemory, random: Option<&[u8]>) -> (r: Result<
        u32,
        EntropyError,
    >)
        requires
            old(mem).wf(),
            self.buffer.wf(),
            backed(self.buffer.vecs@, *old(mem)),
            random matches Some(bytes) ==> bytes@.len() == granted(self.buffer.len as int),
        ensures
            final(mem).wf(),
            final(mem).same_shape(*old(mem)),
            self.buffer.len == 0 ==> r == Ok::<u32, EntropyError>(0) && *final(mem) == *old(mem),
            self.buffer.len > 0 ==> match random {
                None => r == Err::<u32, EntropyError>(EntropyError::Random) && *final(mem) == *old(
                    mem,
                ),
                Some(bytes) => {
                    &&& r == Ok::<u32, EntropyError>(bytes@.len() as u32)
                    &&& filled_at(
                        self.buffer.vecs@,
                        *old(mem),
                        *final(mem),
                        bytes@,
                        0,
                        bytes@.len() as int,
                    )
                },
            },
    {
        if self.buffer.is_empty() {
            return Ok(0);
        }
        match random {
            None => Err(EntropyError::Random),
            Some(bytes) => {
                let _ = self.buffer.write_all_volatile_at(mem, bytes, 0);
                Ok(bytes.len() as u32)
            },
        }
    }

    /// Serves the current request. Whatever random bytes there were, the request has as many as it
    /// is granted, or none.
    pub fn handle_one(&self, mem: &mut GuestMemory) -> (r: Result<u32, EntropyError>)
        requires
            old(mem).wf(),
            self.buffer.wf(),
            backed(self.buffer.vecs@, *old(mem)),
        ensures
            final(mem).wf(),
            final(mem).same_shape(*old(mem)),
            self.buffer.len == 0 ==> r == Ok::<u32, EntropyError>(0) && *final(mem) == *old(mem),
            self.buffer.len > 0 ==> match r {
                Err(e) => e == EntropyError::Random && *final(mem) == *old(mem),
                Ok(n) => {
                    &&& n == granted(self.buffer.len as int)
                    &&& exists|bytes: Seq<u8>|
                        bytes.len() == n && #[trigger] filled_at(
                            self.buffer.vecs@,
                            *old(mem),
                            *final(mem),
                            bytes,
                            0,
                            n as int,
                        )
                },
            },
    {
        if self.buffer.is_empty() {
            return Ok(0);
        }
        // Overlapping buffers can ask for more bytes than there is memory.
        let asked: u32 = self.buffer.len();
        let len: u32 = if asked < MAX_ENTROPY_BYTES {
            asked
        } else {
            MAX_ENTROPY_BYTES
        };
        let mut bytes: Vec<u8> = Vec::new();
        while bytes.len() < len as usize
            invariant
                bytes@.len() <= len,
            decreases len - bytes.len(),
        {
            bytes.push(0);
        }
        if random_fill(&mut bytes) {
            self.serve(mem, Some(bytes.as_slice()))
        } else {
            self.serve(mem, None)
        }
    }

    /// Works on the requests that wait. The answer says whether the guest is to be interrupted.
    pub fn process_entropy_queue(&mut self, mem: &mut GuestMemory) -> (r: Result<
        bool,
        InvalidAvailIdx,
    >)
        requires
            old(self).wf(),
            old(mem).wf(),
        ensures
            final(self).wf(),
            final(mem).wf(),
            *final(self) == (Entropy {
                queue: final(self).queue,
                rate_limiter: final(self).rate_limiter,
                buffer: final(self).buffer,
                ..*old(self)
            }),
            old(self).queue.pending() > old(self).queue.size ==> {
                &&& r matches Err(e)
                &&& e.pending == old(self).queue.pending()
                &&& e.queue_size == old(self).queue.size
                &&& *final(mem) == *old(mem)
                &&& final(self).queue == old(self).queue
                &&& final(self).rate_limiter == old(self).rate_limiter
            },
            old(self).queue.pending() <= old(self).queue.size ==> {
                let chains = old(self).queue.waiting();
                let scan = entropy_scan(chains, *old(mem), old(self).rate_limiter);
                &&& r == Ok::<bool, InvalidAvailIdx>(scan.0 > 0)
                &&& scan.0 <= chains.len()
                &&& final(self).rate_limiter == scan.1
                &&& final(self).queue.next_avail == old(self).queue.next_avail + scan.0
                &&& final(self).queue.avail == old(self).queue.avail
                &&& final(self).queue.size == old(self).queue.size
                &&& final(self).queue.staged == old(self).queue.staged
                &&& final(self).queue.notify == old(self).queue.notify
                &&& final(self).queue.published == final(self).queue.used@.len()
                &&& exists|
                    mems: Seq<GuestMemory>,
                    randoms: Seq<Option<Seq<u8>>>,
                    used: Seq<u32>,
                |
                    {
                        &&& #[trigger] entropy_trace(
                            chains.take(scan.0 as int),
                            mems,
                            randoms,
                            used,
                        )
                        &&& mems[0] == *old(mem)
                        &&& mems.last() == *final(mem)
                        &&& final(self).queue.used@ == old(self).queue.used@ + entropy_entries(
                            chains.take(scan.0 as int),
                            used,
                        )
                    }
            },
    {
        let ghost start = self.queue;
        let ghost first = *mem;
        let ghost chains = start.waiting();
        let ghost whole = entropy_scan(chains, first, self.rate_limiter);
        let ghost mut mems: Seq<GuestMemory> = seq![*mem];
        let ghost mut randoms: Seq<Option<Seq<u8>>> = seq![];
        let ghost mut used: Seq<u32> = seq![];
        let mut used_any: bool = false;
        proof {
            assert(self.queue.used@ =~= start.used@ + entropy_entries(chains.take(0), used));
            assert(chains.skip(0) =~= chains);
        }
        loop
            invariant
                start == old(self).queue,
                first == *old(mem),
                start.wf(),
                chains == start.waiting(),
                self.queue.wf(),
                mem.wf(),
                mem.same_shape(first),
                *self == (Entropy {
                    queue: self.queue,
                    rate_limiter: self.rate_limiter,
                    buffer: self.buffer,
                    ..*old(self)
                }),
                self.queue.size == start.size,
                self.queue.avail == start.avail,
                self.queue.staged == start.staged,
                self.queue.notify == start.notify,
                start.next_avail <= self.queue.next_avail,
                self.queue.next_avail > start.next_avail ==> start.pending() <= start.size,
                self.queue.next_avail == start.next_avail ==> *mem == first && self.queue == start
                    && self.rate_limiter == old(self).rate_limiter,
                used_any <==> self.queue.next_avail > start.next_avail,
                used.len() == self.queue.next_avail - start.next_avail,
                used.len() <= chains.len(),
                entropy_trace(chains.take(used.len() as int), mems, randoms, used),
                mems[0] == first,
                mems.last() == *mem,
                self.queue.used@ == start.used@ + entropy_entries(
                    chains.take(used.len() as int),
                    used,
                ),
                whole == entropy_scan(chains, first, old(self).rate_limiter),
                ({
                    let rest = entropy_scan(
                        chains.skip(used.len() as int),
                        first,
                        self.rate_limiter,
                    );
                    &&& whole.0 == used.len() + rest.0
                    &&& whole.1 == rest.1
                }),
            decreases self.queue.avail@.len() - self.queue.next_avail,
        {
            let ghost n = used.len() as int;
            let head = match self.queue.pop() {
                Err(e) => {
                    return Err(e);
                },
                Ok(None) => {
                    assert(chains.skip(n).len() == 0);
                    self.queue.advance_used_ring_idx();
                    return Ok(used_any);
                },
                Ok(Some(head)) => head,
            };
            let ghost before = *mem;
            proof {
                assert(chains[n] == head@);
                assert(chains.skip(n)[0] == head@);
                assert(chains.skip(n).skip(1) =~= chains.skip(n + 1));
                assert(head@.descs.len()
                    == start.avail@[(start.next_avail + n) as int]@.descs.len());
                lemma_append_error_same_shape(
                    head@.descs,
                    before,
                    first,
                    FIRECRACKER_MAX_QUEUE_SIZE as int,
                    0,
                );
            }
            let ghost mut random: Option<Seq<u8>> = None;
            let mut bytes: u32 = 0;
            if self.buffer.load_descriptor_chain(mem, &head).is_ok() {
                // A request without budget is left in the queue until there is some.
                if !self.rate_limiter.consume_op(self.buffer.len() as u64) {
                    self.queue.undo_pop();
                    self.queue.advance_used_ring_idx();
                    return Ok(used_any);
                }
                match self.handle_one(mem) {
                    Ok(served) => {
                        bytes = served;
                        proof {
                            if self.buffer.len > 0 {
                                let given = choose|given: Seq<u8>|
                                    given.len() == served && #[trigger] filled_at(
                                        self.buffer.vecs@,
                                        before,
                                        *mem,
                                        given,
                                        0,
                                        served as int,
                                    );
                                random = Some(given);
                            }
                        }
                    },
                    Err(_) => {},
                }
            }
            if self.queue.add_used(head.index, bytes).is_err() {
                return Ok(used_any);
            }
            used_any = true;
            proof {
                assert(entropy_step(head@, before, *mem, random, bytes));
                let done = chains.take(n + 1);
                let longer = mems.push(*mem);
                let more = randoms.push(random);
                let lens = used.push(bytes);
                assert forall|i: int| 0 <= i < done.len() implies #[trigger] entropy_step(
                    done[i],
                    longer[i],
                    longer[i + 1],
                    more[i],
                    lens[i],
                ) by {
                    if i < n {
                        assert(entropy_step(
                            chains.take(n)[i],
                            mems[i],
                            mems[i + 1],
                            randoms[i],
                            used[i],
                        ));
                    }
                }
                assert(entropy_entries(done, lens) =~= entropy_entries(chains.take(n), used).push(
                    UsedElement { id: head.index, len: bytes },
                ));
                assert(self.queue.used@ =~= start.used@ + entropy_entries(done, lens));
                mems = longer;
                randoms = more;
                used = lens;
            }
        }
    }

    /// Whether requests are worked on when the driver gives notice: not while the limiter waits for
    /// its timer.
    pub fn process_entropy_queue_event(&self, event_was_read: bool) -> (r: bool)
        ensures
            r == (event_was_read && !self.rate_limiter.timer_active),
    {
        event_was_read && !self.rate_limiter.is_blocked()
    }

    /// Whether requests are worked on after an event of the limiter, which is then unblocked.
    pub fn process_rate_limiter_event(&mut self, expirations: u64) -> (r: bool)
        ensures
            r == (expirations > 0),
            *final(self) == (Entropy {
                rate_limiter: RateLimiter {
                    timer_active: old(self).rate_limiter.timer_active && expirations == 0,
                    ..old(self).rate_limiter
                },
                ..*old(self)
            }),
    {
        self.rate_limiter.event_handler(expirations).is_ok()
    }

    /// Makes the device active, given that its queue is in guest memory and that the event loop was
    /// told.
    pub fn activate(&mut self, queue_found: bool, event_sent: bool) -> (r: Result<
        (),
        ActivateError,
    >)
        requires
            !old(self).activated,
        ensures
            r == (if !queue_found {
                Err(ActivateError::QueueMemoryError)
            } else if !event_sent {
                Err(ActivateError::EventFd)
            } else {
                Ok(())
            }),
            *final(self) == (Entropy { activated: r is Ok, ..*old(self) }),
    {
        if !queue_found {
            return Err(ActivateError::QueueMemoryError);
        }
        if !event_sent {
            return Err(ActivateError::EventFd);
        }
        self.activated = true;
        Ok(())
    }
}

/// Whether a chain can take random bytes: the device may write to all of its buffers, at most 256,
/// each lies in one piece of memory, and their lengths add up to a number of 32 bits.
pub open spec fn takes_entropy(c: ChainView, mem: GuestMemory) -> bool {
    &&& forall|d: int|
        0 <= d < c.descs.len() ==> (#[trigger] c.descs[d]).write_only && mem.has_slice(
            c.descs[d].addr as int,
            c.descs[d].len as int,
        )
    &&& c.descs.len() <= 256
    &&& total(pieces_of(c.descs)) <= u32::MAX
}

/// A chain that can take random bytes gets as many as it is long, at most 65536, and the guest is
/// told how many. Any other chain, and any chain if there are no random bytes, is given back with
/// nothing in it.
pub proof fn law_chains_are_filled_with_entropy(
    c: ChainView,
    before: GuestMemory,
    after: GuestMemory,
    random: Option<Seq<u8>>,
    used: u32,
    k: int,
)
    requires
        entropy_step(c, before, after, random, used),
        0 <= k < used,
        forall|p: int, q: int|
            0 <= p < q < used ==> #[trigger] addr_at(pieces_of(c.descs), p) != #[trigger] addr_at(
                pieces_of(c.descs),
                q,
            ),
    ensures
        takes_entropy(c, before),
        random is Some,
        used == (if total(pieces_of(c.descs)) < 65536 {
            total(pieces_of(c.descs))
        } else {
            65536
        }),
        after.at(addr_at(pieces_of(c.descs), k)) == random->0[k],
{
    law_which_chains_can_be_written(c.descs, before, 256);
    let vecs = pieces_of(c.descs);
    assert(addr_at(vecs, 0 + k) == addr_at(vecs, k));
    assert forall|l: int| k < l < used implies #[trigger] addr_at(vecs, 0 + l) != addr_at(
        vecs,
        0 + k,
    ) by {}
}

/// A chain that can take random bytes and is not empty gets some wherever there are any.
pub proof fn law_entropy_is_not_withheld(
    c: ChainView,
    before: GuestMemory,
    after: GuestMemory,
    random: Option<Seq<u8>>,
    used: u32,
)
    requires
        entropy_step(c, before, after, random, used),
    ensures
        used > 0 <==> takes_entropy(c, before) && random is Some && total(pieces_of(c.descs)) > 0,
        used == 0 ==> after == before,
{
    law_which_chains_can_be_written(c.descs, before, 256);
}

/// Without limits every chain on the queue is worked on.
pub proof fn law_all_requests_for_entropy_are_served(
    chains: Seq<ChainView>,
    mem: GuestMemory,
    limiter: RateLimiter,
)
    requires
        limiter.bandwidth is None,
        limiter.ops is None,
        !limiter.timer_active,
    ensures
        entropy_scan(chains, mem, limiter) == (chains.len(), limiter),
    decreases chains.len(),
{
    if chains.len() > 0 {
        law_all_requests_for_entropy_are_served(chains.skip(1), mem, limiter);
    }
}

/// While the limiter is blocked, the first chain that can take random bytes and all behind it stay
/// on the queue.
pub proof fn law_blocked_requests_for_entropy_wait(
    chains: Seq<ChainView>,
    mem: GuestMemory,
    limiter: RateLimiter,
    i: int,
)
    requires
        limiter.timer_active,
        0 <= i < chains.len(),
        takes_entropy(chains[i], mem),
        forall|j: int| 0 <= j < i ==> !takes_entropy(#[trigger] chains[j], mem),
    ensures
        entropy_scan(chains, mem, limiter) == (i as nat, limiter),
    decreases chains.len(),
{
    law_which_chains_can_be_written(chains[0].descs, mem, 256);
    if i > 0 {
        assert(!takes_entropy(chains[0], mem));
        let tail = chains.skip(1);
        assert forall|j: int| 0 <= j < i - 1 implies !takes_entropy(#[trigger] tail[j], mem) by {
            assert(tail[j] == chains[j + 1]);
        }
        law_blocked_requests_for_entropy_wait(tail, mem, limiter, i - 1);
    }
}

/// Every chain is given back once, in its order, with as many bytes as it was filled with: none where
/// it cannot be filled or there are no random bytes.
pub proof fn law_every_chain_is_given_back(
    chains: Seq<ChainView>,
    mems: Seq<GuestMemory>,
    randoms: Seq<Option<Seq<u8>>>,
    used: Seq<u32>,
    i: int,
)
    requires
        entropy_trace(chains, mems, randoms, used),
        0 <= i < chains.len(),
    ensures
        ({
            let entries = entropy_entries(chains, used);
            let room = total(pieces_of(chains[i].descs));
            &&& entries.len() == chains.len()
            &&& entries[i].id == chains[i].index
            &&& entries[i].len > 0 ==> takes_entropy(chains[i], mems[i]) && randoms[i] is Some
            &&& entries[i].len > 0 ==> entries[i].len == (if room < 65536 {
                room
            } else {
                65536
            })
            &&& entries[i].len == 0 ==> mems[i + 1] == mems[i] || room <= 0
        }),
{
    law_which_chains_can_be_written(chains[i].descs, mems[i], 256);
    assert(entropy_step(chains[i], mems[i], mems[i + 1], randoms[i], used[i]));
}

} // verus!
