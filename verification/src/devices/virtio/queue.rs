//! Traffic of a virtqueue: chains that the driver made available and chains that were used.

use vstd::prelude::*;

verus! {

/// The largest size of a queue.
pub const FIRECRACKER_MAX_QUEUE_SIZE: u16 = 256;

/// A buffer in guest memory.
#[derive(Debug, Clone, Copy, PartialEq, Eq, Structural)]
pub struct Descriptor {
    /// Guest address of the buffer.
    pub addr: u64,
    /// Length of the buffer.
    pub len: u32,
    /// Whether the device may only write to the buffer; otherwise it may only read it.
    pub write_only: bool,
}

/// A chain of buffers that the driver made available together.
#[derive(Debug)]
pub struct DescriptorChain {
    /// Index of the head in the descriptor table.
    pub index: u16,
    /// The first buffer.
    pub head: Descriptor,
    /// The buffers after the first one.
    pub rest: Vec<Descriptor>,
    /// Whether the last buffer names a further one that is not in the descriptor table.
    pub cut_off: bool,
}

/// What a chain holds.
pub struct ChainView {
    /// Index of the head in the descriptor table.
    pub index: u16,
    /// All buffers, the head first.
    pub descs: Seq<Descriptor>,
    /// Whether the last buffer names a further one that is not in the descriptor table.
    pub cut_off: bool,
}

/// Whether the buffer at `i` of a chain names a further one, be it there or not.
pub open spec fn names_next(chain: ChainView, i: int) -> bool {
    i < chain.descs.len() - 1 || chain.cut_off
}

impl View for DescriptorChain {
    type V = ChainView;

    open spec fn view(&self) -> ChainView {
        ChainView { index: self.index, descs: seq![self.head] + self.rest@, cut_off: self.cut_off }
    }
}

impl DescriptorChain {
    /// The number of buffers.
    pub fn count(&self) -> (n: usize)
        requires
            self.rest@.len() < usize::MAX,
        ensures
            n == self@.descs.len(),
            n >= 1,
    {
        self.rest.len() + 1
    }

    /// Whether the buffer at a position names a further one, be it there or not.
    pub fn has_next(&self, i: usize) -> (r: bool)
        requires
            i < self@.descs.len(),
        ensures
            r == names_next(self@, i as int),
    {
        i < self.rest.len() || self.cut_off
    }

    /// The buffer at a position, the head being at zero.
    pub fn get(&self, i: usize) -> (r: Option<Descriptor>)
        ensures
            r == (if i < self@.descs.len() {
                Some(self@.descs[i as int])
            } else {
                None
            }),
    {
        if i == 0 {
            Some(self.head)
        } else if i - 1 < self.rest.len() {
            Some(self.rest[i - 1])
        } else {
            None
        }
    }

    /// A copy of the chain.
    pub fn copied(&self) -> (r: DescriptorChain)
        ensures
            r@ == self@,
    {
        let mut rest: Vec<Descriptor> = Vec::new();
        let mut i: usize = 0;
        while i < self.rest.len()
            invariant
                i <= self.rest@.len(),
                rest@ == self.rest@.take(i as int),
            decreases self.rest.len() - i,
        {
            rest.push(self.rest[i]);
            proof {
                assert(self.rest@.take(i + 1) =~= self.rest@.take(i as int).push(
                    self.rest@[i as int],
                ));
            }
            i = i + 1;
        }
        proof {
            assert(self.rest@.take(i as int) =~= self.rest@);
        }
        DescriptorChain { index: self.index, head: self.head, rest, cut_off: self.cut_off }
    }
}

/// An entry of the used ring.
#[derive(Debug, Clone, Copy, PartialEq, Eq, Structural)]
pub struct UsedElement {
    /// Index of the head of the used chain.
    pub id: u16,
    /// Number of bytes that the device wrote.
    pub len: u32,
}

/// The driver made more chains available than the queue holds.
#[derive(Debug, Clone, Copy, PartialEq, Eq, Structural)]
pub struct InvalidAvailIdx {
    /// Size of the queue.
    pub queue_size: u16,
    /// Number of chains that seem to be pending.
    pub pending: usize,
}

/// Failures of operations on the used ring.
#[derive(Debug, Clone, Copy, PartialEq, Eq, Structural)]
pub enum QueueError {
    /// The index of a chain is not one of the queue.
    DescIndexOutOfBounds(u16),
}

/// Used entries for chains to which the device wrote nothing.
pub open spec fn empty_entries(ids: Seq<u16>) -> Seq<UsedElement> {
    ids.map_values(|id: u16| UsedElement { id, len: 0 })
}

/// Traffic of a queue.
#[derive(Debug)]
pub struct Queue {
    /// Size of the queue.
    pub size: u16,
    /// Every chain that the driver made available, in order.
    pub avail: Vec<DescriptorChain>,
    /// How many chains were taken.
    pub next_avail: usize,
    /// Every entry of the used ring, in order.
    pub used: Vec<UsedElement>,
    /// Entries that are written past the end of the used ring, not yet part of it.
    pub staged: Vec<UsedElement>,
    /// How many used entries the driver can see.
    pub published: usize,
    /// Whether the driver asks for an interrupt when it can see new used entries.
    pub notify: bool,
}

impl Queue {
    /// No more chains were taken than there are, the driver sees no more entries than there are,
    /// and every chain starts at an index of the descriptor table and is no longer than the table.
    pub open spec fn wf(self) -> bool {
        &&& self.next_avail <= self.avail@.len()
        &&& self.published <= self.used@.len()
        &&& forall|i: int|
            0 <= i < self.avail@.len() ==> (#[trigger] self.avail@[i]).index < self.size
                && self.avail@[i].rest@.len() < self.size
    }

    /// The number of chains that wait.
    pub open spec fn pending(self) -> int {
        self.avail@.len() - self.next_avail
    }

    /// What the chains that wait hold.
    pub open spec fn waiting(self) -> Seq<ChainView> {
        self.avail@.skip(self.next_avail as int).map_values(|c: DescriptorChain| c@)
    }

    /// Whether two queues differ in their used ring alone.
    pub open spec fn same_avail(self, other: Queue) -> bool {
        &&& self.size == other.size
        &&& self.avail == other.avail
        &&& self.next_avail == other.next_avail
        &&& self.notify == other.notify
    }

    /// Whether two queues differ in how many chains were taken alone.
    pub open spec fn same_used(self, other: Queue) -> bool {
        &&& self.size == other.size
        &&& self.avail == other.avail
        &&& self.used == other.used
        &&& self.staged == other.staged
        &&& self.published == other.published
        &&& self.notify == other.notify
    }

    /// Whether the queue has the given size and saw no traffic.
    pub open spec fn is_fresh(self, size: u16) -> bool {
        &&& self.size == size
        &&& self.avail@.len() == 0
        &&& self.next_avail == 0
        &&& self.used@.len() == 0
        &&& self.staged@.len() == 0
        &&& self.published == 0
        &&& self.notify
    }

    /// A queue without any traffic.
    pub fn new(size: u16) -> (r: Queue)
        ensures
            r.wf(),
            r.is_fresh(size),
    {
        Queue {
            size,
            avail: Vec::new(),
            next_avail: 0,
            used: Vec::new(),
            staged: Vec::new(),
            published: 0,
            notify: true,
        }
    }

    /// Whether no chain waits.
    pub fn is_empty(&self) -> (r: bool)
        requires
            self.wf(),
        ensures
            r == (self.pending() == 0),
    {
        self.next_avail == self.avail.len()
    }

    /// Takes the next chain.
    pub fn pop(&mut self) -> (r: Result<Option<DescriptorChain>, InvalidAvailIdx>)
        requires
            old(self).wf(),
        ensures
            final(self).wf(),
            final(self).same_used(*old(self)),
            match r {
                Ok(None) => old(self).pending() == 0 && final(self).next_avail == old(
                    self,
                ).next_avail,
                Ok(Some(chain)) => {
                    &&& 0 < old(self).pending() <= old(self).size
                    &&& chain@ == old(self).avail@[old(self).next_avail as int]@
                    &&& final(self).next_avail == old(self).next_avail + 1
                },
                Err(e) => {
                    &&& old(self).pending() > old(self).size
                    &&& e.queue_size == old(self).size
                    &&& e.pending == old(self).pending()
                    &&& final(self).next_avail == old(self).next_avail
                },
            },
    {
        let pending: usize = self.avail.len() - self.next_avail;
        if pending > self.size as usize {
            return Err(InvalidAvailIdx { queue_size: self.size, pending });
        }
        if pending == 0 {
            return Ok(None);
        }
        let chain = self.avail[self.next_avail].copied();
        self.next_avail = self.next_avail + 1;
        Ok(Some(chain))
    }

    /// Hands the chain that was taken last back.
    pub fn undo_pop(&mut self)
        requires
            old(self).wf(),
            old(self).next_avail > 0,
        ensures
            final(self).wf(),
            final(self).same_used(*old(self)),
            final(self).next_avail == old(self).next_avail - 1,
    {
        self.next_avail = self.next_avail - 1;
    }

    /// Adds an entry to the used ring.
    pub fn add_used(&mut self, desc_index: u16, len: u32) -> (r: Result<(), QueueError>)
        requires
            old(self).wf(),
        ensures
            final(self).wf(),
            final(self).same_avail(*old(self)),
            final(self).staged == old(self).staged,
            final(self).published == old(self).published,
            r is Ok <==> desc_index < old(self).size,
            r matches Err(e) ==> e == QueueError::DescIndexOutOfBounds(desc_index),
            final(self).used@ == (if r is Ok {
                old(self).used@.push(UsedElement { id: desc_index, len })
            } else {
                old(self).used@
            }),
    {
        if desc_index >= self.size {
            return Err(QueueError::DescIndexOutOfBounds(desc_index));
        }
        self.used.push(UsedElement { id: desc_index, len });
        Ok(())
    }

    /// Writes an entry past the end of the used ring, after those that are staged.
    pub fn write_used_element(&mut self, desc_index: u16, len: u32) -> (r: Result<(), QueueError>)
        requires
            old(self).wf(),
        ensures
            final(self).wf(),
            final(self).same_avail(*old(self)),
            final(self).used == old(self).used,
            final(self).published == old(self).published,
            r is Ok <==> desc_index < old(self).size,
            r matches Err(e) ==> e == QueueError::DescIndexOutOfBounds(desc_index),
            final(self).staged@ == (if r is Ok {
                old(self).staged@.push(UsedElement { id: desc_index, len })
            } else {
                old(self).staged@
            }),
    {
        if desc_index >= self.size {
            return Err(QueueError::DescIndexOutOfBounds(desc_index));
        }
        self.staged.push(UsedElement { id: desc_index, len });
        Ok(())
    }

    /// Makes the staged entries part of the used ring.
    pub fn advance_next_used(&mut self)
        requires
            old(self).wf(),
        ensures
            final(self).wf(),
            final(self).same_avail(*old(self)),
            final(self).used@ == old(self).used@ + old(self).staged@,
            final(self).staged@.len() == 0,
            final(self).published == old(self).published,
    {
        let ghost before = *self;
        let mut i: usize = 0;
        while i < self.staged.len()
            invariant
                i <= self.staged@.len(),
                self.wf(),
                self.same_avail(before),
                self.staged == before.staged,
                self.published == before.published,
                self.used@ == before.used@ + before.staged@.take(i as int),
            decreases self.staged.len() - i,
        {
            let element = self.staged[i];
            self.used.push(element);
            proof {
                assert(before.staged@.take(i + 1) =~= before.staged@.take(i as int).push(element));
                assert(self.used@ =~= before.used@ + before.staged@.take(i + 1));
            }
            i = i + 1;
        }
        proof {
            assert(before.staged@.take(i as int) =~= before.staged@);
        }
        self.staged = Vec::new();
    }

    /// Lets the driver see all used entries.
    pub fn advance_used_ring_idx(&mut self)
        requires
            old(self).wf(),
        ensures
            final(self).wf(),
            final(self).same_avail(*old(self)),
            final(self).used == old(self).used,
            final(self).staged == old(self).staged,
            final(self).published == old(self).used@.len(),
    {
        self.published = self.used.len();
    }

    /// Whether the driver asks for an interrupt.
    pub fn prepare_kick(&self) -> (r: bool)
        ensures
            r == self.notify,
    {
        self.notify
    }
}

} // verus!
