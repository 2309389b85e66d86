//! Buffers of the guest that are scattered over its memory.

use std::collections::VecDeque;

use vstd::prelude::*;

use crate::devices::virtio::queue::{Descriptor, DescriptorChain};
use crate::vstate::guest_memory::GuestMemory;

verus! {

/// Why a chain cannot serve as a scattered buffer.
#[derive(Debug, Clone, Copy, PartialEq, Eq, Structural)]
pub enum IoVecError {
    /// The device may only write to a buffer that it has to read.
    WriteOnlyDescriptor,
    /// The device may only read a buffer that it has to write to.
    ReadOnlyDescriptor,
    /// The buffers are too large together.
    OverflowedDescriptor,
    /// There are too many pieces.
    IovDequeOverflow,
    /// A buffer is not backed by memory.
    GuestMemory,
}

/// Why bytes could not be moved.
#[derive(Debug, Clone, Copy, PartialEq, Eq, Structural)]
pub enum VolatileMemoryError {
    /// Only some of the bytes could be moved.
    PartialBuffer {
        /// Bytes that were to be moved.
        expected: usize,
        /// Bytes that were moved.
        completed: usize,
    },
    /// The first byte lies past the end.
    OutOfBounds {
        /// Offset of the first byte.
        addr: usize,
    },
}

/// A piece of guest memory.
#[derive(Debug, Clone, Copy, PartialEq, Eq, Structural)]
pub struct IoVec {
    /// Guest address of the first byte.
    pub addr: u64,
    /// Number of bytes.
    pub len: u32,
}

/// The pieces that buffers consist of.
pub open spec fn pieces_of(descs: Seq<Descriptor>) -> Seq<IoVec> {
    descs.map_values(|d: Descriptor| IoVec { addr: d.addr, len: d.len })
}

/// The number of bytes in all pieces.
pub open spec fn total(vecs: Seq<IoVec>) -> int
    decreases vecs.len(),
{
    if vecs.len() == 0 {
        0
    } else {
        total(vecs.drop_last()) + vecs.last().len
    }
}

/// The guest address of the byte at a position, counted over all pieces.
pub open spec fn addr_at(vecs: Seq<IoVec>, pos: int) -> int
    decreases vecs.len(),
{
    if vecs.len() == 0 {
        0
    } else if pos >= total(vecs.drop_last()) {
        vecs.last().addr + (pos - total(vecs.drop_last()))
    } else {
        addr_at(vecs.drop_last(), pos)
    }
}

/// Whether every piece lies in one region of memory.
pub open spec fn backed(vecs: Seq<IoVec>, mem: GuestMemory) -> bool {
    forall|i: int|
        0 <= i < vecs.len() ==> mem.has_slice(
            (#[trigger] vecs[i]).addr as int,
            vecs[i].len as int,
        )
}

/// The number of bytes from a position on, at most `len`.
pub open spec fn available(vecs: Seq<IoVec>, offset: int, len: int) -> int {
    if offset >= total(vecs) {
        0
    } else if offset + len <= total(vecs) {
        len
    } else {
        total(vecs) - offset
    }
}

pub proof fn lemma_total_nonneg(vecs: Seq<IoVec>)
    ensures
        total(vecs) >= 0,
    decreases vecs.len(),
{
    if vecs.len() > 0 {
        lemma_total_nonneg(vecs.drop_last());
    }
}

pub proof fn lemma_total_add(a: Seq<IoVec>, b: Seq<IoVec>)
    ensures
        total(a + b) == total(a) + total(b),
    decreases b.len(),
{
    if b.len() == 0 {
        assert(a + b =~= a);
    } else {
        assert((a + b).drop_last() =~= a + b.drop_last());
        lemma_total_add(a, b.drop_last());
    }
}

proof fn lemma_total_take(vecs: Seq<IoVec>, i: int)
    requires
        0 <= i < vecs.len(),
    ensures
        total(vecs.take(i + 1)) == total(vecs.take(i)) + vecs[i].len,
        0 <= total(vecs.take(i)) <= total(vecs),
        total(vecs.take(i + 1)) <= total(vecs),
{
    assert(vecs.take(i + 1).drop_last() =~= vecs.take(i));
    assert(vecs =~= vecs.take(i) + vecs.skip(i));
    lemma_total_add(vecs.take(i), vecs.skip(i));
    lemma_total_nonneg(vecs.skip(i));
    lemma_total_nonneg(vecs.take(i));
    assert(vecs =~= vecs.take(i + 1) + vecs.skip(i + 1));
    lemma_total_add(vecs.take(i + 1), vecs.skip(i + 1));
    lemma_total_nonneg(vecs.skip(i + 1));
}

/// A position inside of one piece has the address of that piece, moved by the distance.
proof fn lemma_addr_at(vecs: Seq<IoVec>, i: int, pos: int)
    requires
        0 <= i < vecs.len(),
        total(vecs.take(i)) <= pos < total(vecs.take(i)) + vecs[i].len,
    ensures
        addr_at(vecs, pos) == vecs[i].addr + (pos - total(vecs.take(i))),
    decreases vecs.len(),
{
    let front = vecs.drop_last();
    if i == vecs.len() - 1 {
        assert(vecs.take(i) =~= front);
    } else {
        assert(front.take(i) =~= vecs.take(i));
        lemma_total_take(vecs, i);
        lemma_total_take(front, i);
        assert(front.take(front.len() as int) =~= front);
        lemma_addr_at(front, i, pos);
    }
}

/// Every position of a buffer that is backed by memory has an address that is.
proof fn lemma_addr_backed(vecs: Seq<IoVec>, mem: GuestMemory, pos: int)
    requires
        backed(vecs, mem),
        0 <= pos < total(vecs),
    ensures
        mem.has(addr_at(vecs, pos)),
    decreases vecs.len(),
{
    if vecs.len() > 0 {
        let front = vecs.drop_last();
        if pos >= total(front) {
            let last = vecs[vecs.len() - 1];
            mem.lemma_slice_is_range(last.addr as int, last.len as int);
            assert(mem.has(last.addr + (pos - total(front))));
        } else {
            assert(backed(front, mem)) by {
                assert forall|i: int| 0 <= i < front.len() implies mem.has_slice(
                    (#[trigger] front[i]).addr as int,
                    front[i].len as int,
                ) by {
                    assert(vecs[i] == front[i]);
                }
            }
            lemma_addr_backed(front, mem, pos);
        }
    }
}

/// A buffer that the device reads.
#[derive(Debug)]
pub struct IoVecBuffer {
    /// The pieces of the buffer.
    pub vecs: Vec<IoVec>,
    /// Number of bytes in all pieces.
    pub len: u32,
}

/// Why the device cannot read the buffers of a chain, the first `acc` bytes being loaded.
pub open spec fn load_error(descs: Seq<Descriptor>, mem: GuestMemory, acc: int) -> Option<IoVecError>
    decreases descs.len(),
{
    if descs.len() == 0 {
        None
    } else if descs[0].write_only {
        Some(IoVecError::WriteOnlyDescriptor)
    } else if !mem.has_slice(descs[0].addr as int, descs[0].len as int) {
        Some(IoVecError::GuestMemory)
    } else if acc + descs[0].len > u32::MAX {
        Some(IoVecError::OverflowedDescriptor)
    } else {
        load_error(descs.skip(1), mem, acc + descs[0].len)
    }
}

impl IoVecBuffer {
    /// The length is that of the pieces.
    pub open spec fn wf(self) -> bool {
        self.len == total(self.vecs@)
    }

    /// A buffer without any piece.
    pub fn new() -> (r: IoVecBuffer)
        ensures
            r.wf(),
            r.vecs@.len() == 0,
    {
        IoVecBuffer { vecs: Vec::new(), len: 0 }
    }

    /// Replaces the buffer by that of a chain.
    pub fn load_descriptor_chain(&mut self, mem: &GuestMemory, head: &DescriptorChain) -> (r: Result<
        (),
        IoVecError,
    >)
        requires
            mem.wf(),
            head.rest@.len() < usize::MAX,
        ensures
            match r {
                Ok(()) => {
                    &&& load_error(head@.descs, *mem, 0) is None
                    &&& final(self).wf()
                    &&& final(self).vecs@ == pieces_of(head@.descs)
                    &&& backed(final(self).vecs@, *mem)
                },
                Err(e) => {
                    &&& load_error(head@.descs, *mem, 0) == Some(e)
                    &&& final(self).vecs@.len() <= head@.descs.len()
                    &&& final(self).vecs@ == pieces_of(head@.descs).take(
                        final(self).vecs@.len() as int,
                    )
                },
            },
    {
        self.clear();
        let count: usize = head.count();
        let ghost descs = head@.descs;
        let ghost pieces = pieces_of(descs);
        let mut i: usize = 0;
        assert(descs.skip(0) =~= descs);
        assert(self.vecs@ =~= pieces.take(0));
        while i < count
            invariant
                mem.wf(),
                i <= count,
                count == descs.len(),
                descs == head@.descs,
                pieces == pieces_of(descs),
                self.wf(),
                self.vecs@ == pieces.take(i as int),
                backed(self.vecs@, *mem),
                load_error(descs, *mem, 0) == load_error(descs.skip(i as int), *mem, self.len as int),
            decreases count - i,
        {
            let desc = match head.get(i) {
                Some(desc) => desc,
                None => {
                    return Ok(());
                },
            };
            proof {
                assert(descs.skip(i as int)[0] == desc);
                assert(descs.skip(i as int).skip(1) =~= descs.skip(i + 1));
            }
            if desc.write_only {
                return Err(IoVecError::WriteOnlyDescriptor);
            }
            if !mem.get_slice(desc.addr, desc.len as usize) {
                return Err(IoVecError::GuestMemory);
            }
            let ghost former = self.vecs@;
            self.vecs.push(IoVec { addr: desc.addr, len: desc.len });
            proof {
                assert(self.vecs@ =~= pieces.take(i + 1));
                assert(self.vecs@.drop_last() =~= former);
            }
            self.len = match self.len.checked_add(desc.len) {
                Some(len) => len,
                None => {
                    return Err(IoVecError::OverflowedDescriptor);
                },
            };
            i = i + 1;
        }
        proof {
            assert(pieces.take(i as int) =~= pieces);
        }
        Ok(())
    }

    /// The buffer of a chain.
    pub fn from_descriptor_chain(mem: &GuestMemory, head: &DescriptorChain) -> (r: Result<
        IoVecBuffer,
        IoVecError,
    >)
        requires
            mem.wf(),
            head.rest@.len() < usize::MAX,
        ensures
            match r {
                Ok(buffer) => {
                    &&& load_error(head@.descs, *mem, 0) is None
                    &&& buffer.wf()
                    &&& buffer.vecs@ == pieces_of(head@.descs)
                    &&& backed(buffer.vecs@, *mem)
                },
                Err(e) => load_error(head@.descs, *mem, 0) == Some(e),
            },
    {
        let mut buffer = IoVecBuffer::new();
        match buffer.load_descriptor_chain(mem, head) {
            Ok(()) => Ok(buffer),
            Err(e) => Err(e),
        }
    }

    /// The number of bytes.
    pub fn len(&self) -> (r: u32)
        ensures
            r == self.len,
    {
        self.len
    }

    /// The number of pieces.
    pub fn iovec_count(&self) -> (r: usize)
        ensures
            r == self.vecs@.len(),
    {
        self.vecs.len()
    }

    /// Drops all pieces.
    pub fn clear(&mut self)
        ensures
            final(self).wf(),
            final(self).vecs@.len() == 0,
            final(self).len == 0,
    {
        self.vecs.clear();
        self.len = 0;
    }

    /// The bytes from an offset on, at most `len` of them.
    pub open spec fn bytes_at(self, mem: GuestMemory, offset: int, len: int) -> Seq<u8> {
        Seq::new(
            available(self.vecs@, offset, len) as nat,
            |k: int| mem.at(addr_at(self.vecs@, offset + k)),
        )
    }

    /// Reads up to `len` bytes from an offset on.
    pub fn read_volatile_at(&self, mem: &GuestMemory, offset: usize, len: usize) -> (r: Vec<u8>)
        requires
            mem.wf(),
            backed(self.vecs@, *mem),
        ensures
            r@ == self.bytes_at(*mem, offset as int, len as int),
            r@.len() == available(self.vecs@, offset as int, len as int),
    {
        let mut out: Vec<u8> = Vec::new();
        let mut skip: usize = offset;
        let mut left: usize = len;
        let mut i: usize = 0;
        let ghost vecs = self.vecs@;
        proof {
            lemma_total_nonneg(vecs);
        }
        while i < self.vecs.len() && left > 0
            invariant
                mem.wf(),
                backed(vecs, *mem),
                vecs == self.vecs@,
                i <= vecs.len(),
                total(vecs) >= 0,
                left + out@.len() == len,
                left > 0 ==> offset + out@.len() == total(vecs.take(i as int)) + skip,
                out@.len() > 0 ==> skip == 0,
                out@.len() > 0 ==> offset + out@.len() <= total(vecs),
                forall|k: int|
                    0 <= k < out@.len() ==> #[trigger] out@[k] == mem.at(addr_at(vecs, offset + k)),
            decreases vecs.len() - i,
        {
            let iov = self.vecs[i];
            proof {
                lemma_total_take(vecs, i as int);
            }
            if skip as u64 >= iov.len as u64 {
                skip = skip - iov.len as usize;
                i = i + 1;
                continue ;
            }
            let whole: usize = iov.len as usize - skip;
            let chunk: usize = if whole > left {
                left
            } else {
                whole
            };
            proof {
                assert(mem.has_slice(vecs[i as int].addr as int, vecs[i as int].len as int));
                mem.lemma_slice_is_range(iov.addr as int, iov.len as int);
                assert(mem.has(iov.addr + skip));
                mem.lemma_in_address_space(iov.addr + skip);
                assert forall|a: int| iov.addr + skip <= a < iov.addr + skip + chunk implies
                    #[trigger] mem.has(a) by {}
            }
            let ghost former = out@;
            if let Some(mut part) = mem.read(iov.addr + skip as u64, chunk) {
                let ghost bytes = part@;
                out.append(&mut part);
                proof {
                    assert(out@ == former + bytes);
                    assert forall|k: int| 0 <= k < out@.len() implies #[trigger] out@[k] == mem.at(
                        addr_at(vecs, offset + k),
                    ) by {
                        if k >= former.len() {
                            lemma_addr_at(vecs, i as int, offset + k);
                        }
                    }
                }
            }
            left = left - chunk;
            skip = 0;
            i = i + 1;
        }
        proof {
            assert(vecs.take(vecs.len() as int) =~= vecs);
            assert(out@ =~= self.bytes_at(*mem, offset as int, len as int));
        }
        out
    }

    /// Reads exactly `len` bytes from an offset on.
    pub fn read_exact_volatile_at(&self, mem: &GuestMemory, offset: usize, len: usize) -> (r: Result<
        Vec<u8>,
        VolatileMemoryError,
    >)
        requires
            mem.wf(),
            self.wf(),
            backed(self.vecs@, *mem),
        ensures
            match r {
                Ok(bytes) => {
                    &&& offset < self.len
                    &&& offset + len <= self.len
                    &&& bytes@ == self.bytes_at(*mem, offset as int, len as int)
                    &&& bytes@.len() == len
                },
                Err(VolatileMemoryError::OutOfBounds { addr }) => offset >= self.len && addr
                    == offset,
                Err(VolatileMemoryError::PartialBuffer { expected, completed }) => {
                    &&& offset < self.len
                    &&& offset + len > self.len
                    &&& expected == len
                    &&& completed == self.len - offset
                },
            },
    {
        if (offset as u64) < self.len as u64 {
            let bytes = self.read_volatile_at(mem, offset, len);
            if bytes.len() != len {
                return Err(
                    VolatileMemoryError::PartialBuffer { expected: len, completed: bytes.len() },
                );
            }
            Ok(bytes)
        } else {
            Err(VolatileMemoryError::OutOfBounds { addr: offset })
        }
    }
}

/// What is remembered of a chain that was appended to a buffer.
#[derive(Debug, Clone, Copy, PartialEq, Eq, Structural)]
pub struct ParsedDescriptorChain {
    /// Head of the chain.
    pub head_index: u16,
    /// Number of bytes.
    pub length: u32,
    /// Number of pieces.
    pub nr_iovecs: u16,
}

/// Why the device cannot write to the buffers of a chain, where `room` more pieces fit and the
/// first `acc` bytes of the chain are appended.
pub open spec fn append_error(
    descs: Seq<Descriptor>,
    mem: GuestMemory,
    room: int,
    acc: int,
) -> Option<IoVecError>
    decreases descs.len(),
{
    if descs.len() == 0 {
        None
    } else if !descs[0].write_only {
        Some(IoVecError::ReadOnlyDescriptor)
    } else if !mem.has_slice(descs[0].addr as int, descs[0].len as int) {
        Some(IoVecError::GuestMemory)
    } else if room <= 0 {
        Some(IoVecError::IovDequeOverflow)
    } else if acc + descs[0].len > u32::MAX {
        Some(IoVecError::OverflowedDescriptor)
    } else {
        append_error(descs.skip(1), mem, room - 1, acc + descs[0].len)
    }
}

/// Whether `after` is `before` with the first `n` bytes of `src` written to pieces of memory from
/// an offset on. Where pieces overlap, the last write to an address counts.
pub open spec fn filled_at(
    vecs: Seq<IoVec>,
    before: GuestMemory,
    after: GuestMemory,
    src: Seq<u8>,
    offset: int,
    n: int,
) -> bool {
    &&& after.same_shape(before)
    &&& forall|a: int|
        #![trigger after.at(a)]
        before.has(a) && (forall|k: int|
            0 <= k < n ==> #[trigger] addr_at(vecs, offset + k) != a) ==> after.at(a) == before.at(
            a,
        )
    &&& forall|k: int|
        0 <= k < n && (forall|l: int|
            k < l < n ==> #[trigger] addr_at(vecs, offset + l) != addr_at(vecs, offset + k))
            ==> after.at(#[trigger] addr_at(vecs, offset + k)) == src[k]
}

/// Memory of the same shape takes the same chains.
pub proof fn lemma_append_error_same_shape(
    descs: Seq<Descriptor>,
    a: GuestMemory,
    b: GuestMemory,
    room: int,
    acc: int,
)
    requires
        a.same_shape(b),
    ensures
        append_error(descs, a, room, acc) == append_error(descs, b, room, acc),
    decreases descs.len(),
{
    a.lemma_same_shape(b);
    if descs.len() > 0 {
        lemma_append_error_same_shape(descs.skip(1), a, b, room - 1, acc + descs[0].len);
    }
}

/// A buffer that the device writes to. It has at most `L` pieces.
#[derive(Debug)]
pub struct IoVecBufferMut<const L: u16> {
    /// The pieces of the buffer.
    pub vecs: VecDeque<IoVec>,
    /// Number of bytes in all pieces.
    pub len: u32,
}

impl<const L: u16> IoVecBufferMut<L> {
    /// The length is that of the pieces, of which there are not too many.
    pub open spec fn wf(self) -> bool {
        &&& self.len == total(self.vecs@)
        &&& self.vecs@.len() <= L
    }

    /// Why a chain cannot be appended.
    pub open spec fn refusal(self, descs: Seq<Descriptor>, mem: GuestMemory) -> Option<IoVecError> {
        match append_error(descs, mem, L - self.vecs@.len(), 0) {
            Some(e) => Some(e),
            None => if self.len + total(pieces_of(descs)) > u32::MAX {
                Some(IoVecError::OverflowedDescriptor)
            } else {
                None
            },
        }
    }

    // Drops `count` pieces from the back.
    fn pop_back(&mut self, count: u16)
        requires
            count <= old(self).vecs@.len(),
        ensures
            final(self).vecs@ == old(self).vecs@.take(old(self).vecs@.len() - count),
            final(self).len == old(self).len,
    {
        let mut n: u16 = 0;
        let ghost before = self.vecs@;
        assert(before.take(before.len() as int) =~= before);
        while n < count
            invariant
                n <= count,
                count <= before.len(),
                self.vecs@ == before.take(before.len() - n),
                self.len == old(self).len,
            decreases count - n,
        {
            let _ = self.vecs.pop_back();
            n = n + 1;
            assert(self.vecs@ =~= before.take(before.len() - n));
        }
    }

    /// Appends the buffers of a chain, or nothing at all.
    pub fn append_descriptor_chain(&mut self, mem: &GuestMemory, head: &DescriptorChain) -> (r: Result<
        ParsedDescriptorChain,
        IoVecError,
    >)
        requires
            mem.wf(),
            old(self).wf(),
            head.rest@.len() < usize::MAX,
        ensures
            final(self).wf(),
            match r {
                Ok(parsed) => {
                    &&& old(self).refusal(head@.descs, *mem) is None
                    &&& parsed.head_index == head@.index
                    &&& parsed.length == total(pieces_of(head@.descs))
                    &&& parsed.nr_iovecs == head@.descs.len()
                    &&& final(self).vecs@ == old(self).vecs@ + pieces_of(head@.descs)
                    &&& final(self).len == old(self).len + parsed.length
                    &&& backed(pieces_of(head@.descs), *mem)
                },
                Err(e) => {
                    &&& old(self).refusal(head@.descs, *mem) == Some(e)
                    &&& final(self).vecs@ == old(self).vecs@
                    &&& final(self).len == old(self).len
                },
            },
    {
        let head_index: u16 = head.index;
        let count: usize = head.count();
        let ghost descs = head@.descs;
        let ghost pieces = pieces_of(descs);
        let ghost before = self.vecs@;
        let mut length: u32 = 0;
        let mut nr_iovecs: u16 = 0;
        let mut i: usize = 0;
        assert(descs.skip(0) =~= descs);
        assert(self.vecs@ =~= before + pieces.take(0));
        while i < count
            invariant
                mem.wf(),
                i <= count,
                count == descs.len(),
                nr_iovecs == i,
                descs == head@.descs,
                pieces == pieces_of(descs),
                before == old(self).vecs@,
                before.len() <= L,
                old(self).wf(),
                self.len == old(self).len,
                self.vecs@ == before + pieces.take(i as int),
                self.vecs@.len() <= L,
                length == total(pieces.take(i as int)),
                backed(pieces.take(i as int), *mem),
                append_error(descs, *mem, L - before.len(), 0) == append_error(
                    descs.skip(i as int),
                    *mem,
                    L - before.len() - i,
                    length as int,
                ),
            decreases count - i,
        {
            let desc = match head.get(i) {
                Some(desc) => desc,
                None => {
                    return Err(IoVecError::OverflowedDescriptor);
                },
            };
            proof {
                assert(descs.skip(i as int)[0] == desc);
                assert(descs.skip(i as int).skip(1) =~= descs.skip(i + 1));
                assert((before + pieces.take(i as int)).take(before.len() as int) =~= before);
            }
            if !desc.write_only {
                self.pop_back(nr_iovecs);
                return Err(IoVecError::ReadOnlyDescriptor);
            }
            if !mem.get_slice(desc.addr, desc.len as usize) {
                self.pop_back(nr_iovecs);
                return Err(IoVecError::GuestMemory);
            }
            if self.vecs.len() >= L as usize {
                self.pop_back(nr_iovecs);
                return Err(IoVecError::IovDequeOverflow);
            }
            self.vecs.push_back(IoVec { addr: desc.addr, len: desc.len });
            nr_iovecs = nr_iovecs + 1;
            proof {
                assert(pieces[i as int] == IoVec { addr: desc.addr, len: desc.len });
                assert(pieces.take(i + 1) =~= pieces.take(i as int).push(pieces[i as int]));
                assert(self.vecs@ =~= before + pieces.take(i + 1));
                assert((before + pieces.take(i + 1)).take(before.len() as int) =~= before);
                assert(pieces.take(i + 1).drop_last() =~= pieces.take(i as int));
            }
            length = match length.checked_add(desc.len) {
                Some(length) => length,
                None => {
                    self.pop_back(nr_iovecs);
                    return Err(IoVecError::OverflowedDescriptor);
                },
            };
            i = i + 1;
        }
        proof {
            assert(pieces.take(i as int) =~= pieces);
            assert((before + pieces).take(before.len() as int) =~= before);
            lemma_total_add(before, pieces);
        }
        self.len = match self.len.checked_add(length) {
            Some(len) => len,
            None => {
                self.pop_back(nr_iovecs);
                return Err(IoVecError::OverflowedDescriptor);
            },
        };
        Ok(ParsedDescriptorChain { head_index, length, nr_iovecs })
    }

    /// A buffer without any piece.
    pub fn new() -> (r: Self)
        ensures
            r.wf(),
            r.vecs@.len() == 0,
            r.len == 0,
    {
        IoVecBufferMut { vecs: VecDeque::new(), len: 0 }
    }

    /// Replaces the buffer by that of a chain. Where that fails, the buffer is empty.
    pub fn load_descriptor_chain(&mut self, mem: &GuestMemory, head: &DescriptorChain) -> (r: Result<
        (),
        IoVecError,
    >)
        requires
            mem.wf(),
            head.rest@.len() < usize::MAX,
        ensures
            final(self).wf(),
            match r {
                Ok(()) => {
                    &&& append_error(head@.descs, *mem, L as int, 0) is None
                    &&& final(self).vecs@ == pieces_of(head@.descs)
                    &&& backed(final(self).vecs@, *mem)
                },
                Err(e) => {
                    &&& append_error(head@.descs, *mem, L as int, 0) == Some(e)
                    &&& final(self).vecs@.len() == 0
                },
            },
    {
        self.clear();
        proof {
            assert(Seq::<IoVec>::empty() + pieces_of(head@.descs) =~= pieces_of(head@.descs));
            if append_error(head@.descs, *mem, L as int, 0) is None {
                lemma_append_error_bound(head@.descs, *mem, L as int, 0);
            }
        }
        match self.append_descriptor_chain(mem, head) {
            Ok(_) => {
                assert(self.vecs@ =~= pieces_of(head@.descs));
                Ok(())
            },
            Err(e) => Err(e),
        }
    }

    /// The buffer of a chain.
    pub fn from_descriptor_chain(mem: &GuestMemory, head: &DescriptorChain) -> (r: Result<
        Self,
        IoVecError,
    >)
        requires
            mem.wf(),
            head.rest@.len() < usize::MAX,
        ensures
            match r {
                Ok(buffer) => {
                    &&& append_error(head@.descs, *mem, L as int, 0) is None
                    &&& buffer.wf()
                    &&& buffer.vecs@ == pieces_of(head@.descs)
                    &&& backed(buffer.vecs@, *mem)
                },
                Err(e) => append_error(head@.descs, *mem, L as int, 0) == Some(e),
            },
    {
        let mut buffer = Self::new();
        match buffer.load_descriptor_chain(mem, head) {
            Ok(()) => Ok(buffer),
            Err(e) => Err(e),
        }
    }

    /// Drops a chain from the front.
    pub fn drop_chain_front(&mut self, parse_descriptor: &ParsedDescriptorChain)
        requires
            old(self).wf(),
            parse_descriptor.nr_iovecs <= old(self).vecs@.len(),
            parse_descriptor.length == total(
                old(self).vecs@.take(parse_descriptor.nr_iovecs as int),
            ),
        ensures
            final(self).wf(),
            final(self).vecs@ == old(self).vecs@.skip(parse_descriptor.nr_iovecs as int),
            final(self).len == old(self).len - parse_descriptor.length,
    {
        let count: u16 = parse_descriptor.nr_iovecs;
        let ghost before = self.vecs@;
        proof {
            assert(before =~= before.take(count as int) + before.skip(count as int));
            lemma_total_add(before.take(count as int), before.skip(count as int));
            lemma_total_nonneg(before.skip(count as int));
            assert(before.skip(0) =~= before);
        }
        let mut n: u16 = 0;
        while n < count
            invariant
                n <= count,
                count <= before.len(),
                self.vecs@ == before.skip(n as int),
                self.len == old(self).len,
            decreases count - n,
        {
            let _ = self.vecs.pop_front();
            n = n + 1;
            assert(self.vecs@ =~= before.skip(n as int));
        }
        self.len = self.len - parse_descriptor.length;
    }

    /// Drops a chain from the back.
    pub fn drop_chain_back(&mut self, parse_descriptor: &ParsedDescriptorChain)
        requires
            old(self).wf(),
            parse_descriptor.nr_iovecs <= old(self).vecs@.len(),
            parse_descriptor.length == total(
                old(self).vecs@.skip(old(self).vecs@.len() - parse_descriptor.nr_iovecs),
            ),
        ensures
            final(self).wf(),
            final(self).vecs@ == old(self).vecs@.take(
                old(self).vecs@.len() - parse_descriptor.nr_iovecs,
            ),
            final(self).len == old(self).len - parse_descriptor.length,
    {
        proof {
            let before = self.vecs@;
            let n = before.len() - parse_descriptor.nr_iovecs;
            assert(before =~= before.take(n) + before.skip(n));
            lemma_total_add(before.take(n), before.skip(n));
            lemma_total_nonneg(before.take(n));
        }
        self.pop_back(parse_descriptor.nr_iovecs);
        self.len = self.len - parse_descriptor.length;
    }

    /// The number of bytes.
    pub fn len(&self) -> (r: u32)
        ensures
            r == self.len,
    {
        self.len
    }

    /// Whether there are no bytes.
    pub fn is_empty(&self) -> (r: bool)
        ensures
            r == (self.len == 0),
    {
        self.len == 0
    }

    /// Drops all pieces.
    pub fn clear(&mut self)
        ensures
            final(self).wf(),
            final(self).vecs@.len() == 0,
            final(self).len == 0,
    {
        self.vecs.clear();
        self.len = 0;
    }

    /// Whether `after` is `before` with the first `n` bytes of `src` written to the buffer from
    /// an offset on.
    pub open spec fn filled(
        self,
        before: GuestMemory,
        after: GuestMemory,
        src: Seq<u8>,
        offset: int,
        n: int,
    ) -> bool {
        filled_at(self.vecs@, before, after, src, offset, n)
    }

    /// Writes as many bytes as fit from an offset on, and says how many.
    pub fn write_volatile_at(&self, mem: &mut GuestMemory, src: &[u8], offset: usize) -> (r: usize)
        requires
            old(mem).wf(),
            backed(self.vecs@, *old(mem)),
        ensures
            final(mem).wf(),
            r == available(self.vecs@, offset as int, src@.len() as int),
            self.filled(*old(mem), *final(mem), src@, offset as int, r as int),
    {
        let ghost vecs = self.vecs@;
        let ghost before = *mem;
        let mut done: usize = 0;
        let mut skip: usize = offset;
        let mut i: usize = 0;
        proof {
            lemma_total_nonneg(vecs);
        }
        while i < self.vecs.len() && done < src.len()
            invariant
                mem.wf(),
                before == *old(mem),
                before.wf(),
                backed(vecs, before),
                vecs == self.vecs@,
                i <= vecs.len(),
                total(vecs) >= 0,
                done <= src@.len(),
                done < src@.len() ==> offset + done == total(vecs.take(i as int)) + skip,
                done > 0 ==> skip == 0,
                done > 0 ==> offset + done <= total(vecs),
                self.filled(before, *mem, src@, offset as int, done as int),
            decreases vecs.len() - i,
        {
            let iov = self.vecs[i];
            proof {
                lemma_total_take(vecs, i as int);
                assert(before.has_slice(vecs[i as int].addr as int, vecs[i as int].len as int));
                before.lemma_slice_is_range(iov.addr as int, iov.len as int);
            }
            if skip as u64 >= iov.len as u64 {
                skip = skip - iov.len as usize;
                i = i + 1;
                continue ;
            }
            let ghost base = total(vecs.take(i as int));
            while (skip as u64) < iov.len as u64 && done < src.len()
                invariant
                    mem.wf(),
                    before.wf(),
                    backed(vecs, before),
                    vecs == self.vecs@,
                    i < vecs.len(),
                    iov == vecs[i as int],
                    before.has_range(iov.addr as int, iov.len as int),
                    base == total(vecs.take(i as int)),
                    base + iov.len <= total(vecs),
                    skip <= iov.len,
                    done <= src@.len(),
                    offset + done == base + skip,
                    self.filled(before, *mem, src@, offset as int, done as int),
                decreases src.len() - done,
            {
                let ghost current = *mem;
                proof {
                    mem.lemma_same_shape(before);
                    assert(before.has(iov.addr + skip));
                    before.lemma_in_address_space(iov.addr + skip);
                    lemma_addr_at(vecs, i as int, offset + done);
                }
                mem.write_byte(iov.addr + skip as u64, src[done]);
                proof {
                    let target = iov.addr + skip;
                    let n = done as int;
                    assert(addr_at(vecs, offset + n) == target);
                    assert(mem.same_shape(before)) by {
                        assert forall|k: int| 0 <= k < mem.pieces().len() implies (
                        #[trigger] mem.pieces()[k]).start == before.pieces()[k].start
                            && mem.pieces()[k].data@.len() == before.pieces()[k].data@.len() by {
                            assert(current.pieces()[k].start == before.pieces()[k].start);
                        }
                    }
                    assert forall|a: int|
                        #![trigger mem.at(a)]
                        before.has(a) && (forall|k: int|
                            0 <= k < n + 1 ==> #[trigger] addr_at(vecs, offset + k)
                                != a) implies mem.at(a) == before.at(a) by {
                        assert(addr_at(vecs, offset + n) != a);
                        assert(current.has(a));
                        assert(mem.at(a) == current.at(a));
                    }
                    assert forall|k: int|
                        0 <= k < n + 1 && (forall|l: int|
                            k < l < n + 1 ==> #[trigger] addr_at(vecs, offset + l) != addr_at(
                                vecs,
                                offset + k,
                            )) implies mem.at(#[trigger] addr_at(vecs, offset + k)) == src@[k] by {
                        if k < n {
                            assert(addr_at(vecs, offset + n) != addr_at(vecs, offset + k));
                            lemma_addr_backed(vecs, before, offset + k);
                            assert(current.has(addr_at(vecs, offset + k)));
                        } else {
                            assert(current.has(target));
                        }
                    }
                }
                skip = skip + 1;
                done = done + 1;
            }
            skip = 0;
            i = i + 1;
        }
        proof {
            assert(vecs.take(vecs.len() as int) =~= vecs);
        }
        done
    }

    /// Writes all bytes from an offset on, as far as they fit.
    pub fn write_all_volatile_at(&self, mem: &mut GuestMemory, src: &[u8], offset: usize) -> (r:
        Result<(), VolatileMemoryError>)
        requires
            old(mem).wf(),
            self.wf(),
            backed(self.vecs@, *old(mem)),
        ensures
            final(mem).wf(),
            self.filled(
                *old(mem),
                *final(mem),
                src@,
                offset as int,
                available(self.vecs@, offset as int, src@.len() as int),
            ),
            match r {
                Ok(()) => offset < self.len && offset + src@.len() <= self.len,
                Err(VolatileMemoryError::OutOfBounds { addr }) => offset >= self.len && addr
                    == offset,
                Err(VolatileMemoryError::PartialBuffer { expected, completed }) => {
                    &&& offset < self.len
                    &&& offset + src@.len() > self.len
                    &&& expected == src@.len()
                    &&& completed == self.len - offset
                },
            },
    {
        if (offset as u64) < self.len as u64 {
            let written: usize = self.write_volatile_at(mem, src, offset);
            if written != src.len() {
                return Err(
                    VolatileMemoryError::PartialBuffer { expected: src.len(), completed: written },
                );
            }
            Ok(())
        } else {
            Err(VolatileMemoryError::OutOfBounds { addr: offset })
        }
    }
}

/// A chain that can be appended has as many bytes as fit into the length of a buffer.
proof fn lemma_append_error_bound(descs: Seq<Descriptor>, mem: GuestMemory, room: int, acc: int)
    requires
        append_error(descs, mem, room, acc) is None,
        0 <= acc <= u32::MAX,
    ensures
        acc + total(pieces_of(descs)) <= u32::MAX,
    decreases descs.len(),
{
    let pieces = pieces_of(descs);
    if descs.len() > 0 {
        let rest = descs.skip(1);
        lemma_append_error_bound(rest, mem, room - 1, acc + descs[0].len);
        let first = seq![pieces[0]];
        assert(pieces =~= first + pieces_of(rest));
        lemma_total_add(first, pieces_of(rest));
        assert(first.drop_last() =~= Seq::<IoVec>::empty());
        reveal_with_fuel(total, 2);
        assert(total(first) == pieces[0].len);
    }
}

/// A chain that was appended can be dropped again, which gives back the buffer as it was.
pub proof fn law_drop_undoes_append(before: Seq<IoVec>, descs: Seq<Descriptor>)
    ensures
        (before + pieces_of(descs)).take((before + pieces_of(descs)).len() - descs.len()) == before,
        total((before + pieces_of(descs)).skip((before + pieces_of(descs)).len() - descs.len()))
            == total(pieces_of(descs)),
        total(before + pieces_of(descs)) == total(before) + total(pieces_of(descs)),
{
    let pieces = pieces_of(descs);
    let all = before + pieces;
    assert(all.take(all.len() - descs.len()) =~= before);
    assert(all.skip(all.len() - descs.len()) =~= pieces);
    lemma_total_add(before, pieces);
}

/// The number of bytes that are moved is that of the bytes at hand, cut to what the buffer holds
/// from the offset on.
pub proof fn law_moved_bytes(vecs: Seq<IoVec>, offset: int, len: int)
    requires
        0 <= offset,
        0 <= len,
    ensures
        available(vecs, offset, len) == vstd::math::min(
            len,
            vstd::math::max(0, total(vecs) - offset),
        ),
{
    lemma_total_nonneg(vecs);
}

/// A buffer is its pieces one behind the other: a byte of a piece stands as far behind the start of
/// the buffer as the pieces before it are long.
pub proof fn law_pieces_follow_each_other(vecs: Seq<IoVec>, i: int, k: int)
    requires
        0 <= i < vecs.len(),
        0 <= k < vecs[i].len,
    ensures
        addr_at(vecs, total(vecs.take(i)) + k) == vecs[i].addr + k,
        total(vecs.take(i + 1)) == total(vecs.take(i)) + vecs[i].len,
        total(vecs.take(0)) == 0,
        total(vecs.take(i)) + k < total(vecs),
{
    lemma_addr_at(vecs, i, total(vecs.take(i)) + k);
    lemma_total_take(vecs, i);
}

/// A chain can be read from exactly when the device may write to none of its pieces, each lies in
/// one piece of memory, and their lengths add up to a number of 32 bits.
pub proof fn law_which_chains_can_be_read(descs: Seq<Descriptor>, mem: GuestMemory)
    ensures
        load_error(descs, mem, 0) is None <==> (forall|i: int|
            0 <= i < descs.len() ==> !(#[trigger] descs[i]).write_only && mem.has_slice(
                descs[i].addr as int,
                descs[i].len as int,
            )) && total(pieces_of(descs)) <= u32::MAX,
{
    lemma_which_load(descs, mem, 0);
}

proof fn lemma_which_load(descs: Seq<Descriptor>, mem: GuestMemory, acc: int)
    requires
        0 <= acc <= u32::MAX,
    ensures
        load_error(descs, mem, acc) is None <==> (forall|i: int|
            0 <= i < descs.len() ==> !(#[trigger] descs[i]).write_only && mem.has_slice(
                descs[i].addr as int,
                descs[i].len as int,
            )) && acc + total(pieces_of(descs)) <= u32::MAX,
    decreases descs.len(),
{
    if descs.len() > 0 {
        let rest = descs.skip(1);
        let first = seq![IoVec { addr: descs[0].addr, len: descs[0].len }];
        assert(pieces_of(descs) =~= first + pieces_of(rest));
        lemma_total_add(first, pieces_of(rest));
        assert(first.drop_last() =~= Seq::<IoVec>::empty());
        assert(total(first.drop_last()) == 0);
        assert(total(first) == descs[0].len);
        lemma_total_nonneg(pieces_of(rest));
        if acc + descs[0].len <= u32::MAX {
            lemma_which_load(rest, mem, acc + descs[0].len);
        }
        assert forall|i: int| 0 <= i < rest.len() implies #[trigger] rest[i] == descs[i + 1] by {}
        if load_error(descs, mem, acc) is None {
            assert forall|i: int| 0 <= i < descs.len() implies !(#[trigger] descs[i]).write_only
                && mem.has_slice(descs[i].addr as int, descs[i].len as int) by {
                if i > 0 {
                    assert(rest[i - 1] == descs[i]);
                }
            }
        }
    } else {
        assert(pieces_of(descs) =~= Seq::<IoVec>::empty());
    }
}

/// A chain can be written to exactly when the device may write to all of its pieces, each lies in
/// one piece of memory, there is room for so many pieces, and their lengths add up to a number of
/// 32 bits.
pub proof fn law_which_chains_can_be_written(descs: Seq<Descriptor>, mem: GuestMemory, room: int)
    ensures
        append_error(descs, mem, room, 0) is None <==> (forall|i: int|
            0 <= i < descs.len() ==> (#[trigger] descs[i]).write_only && mem.has_slice(
                descs[i].addr as int,
                descs[i].len as int,
            )) && (descs.len() == 0 || descs.len() <= room) && total(pieces_of(descs)) <= u32::MAX,
{
    lemma_which_append(descs, mem, room, 0);
}

proof fn lemma_which_append(descs: Seq<Descriptor>, mem: GuestMemory, room: int, acc: int)
    requires
        0 <= acc <= u32::MAX,
    ensures
        append_error(descs, mem, room, acc) is None <==> (forall|i: int|
            0 <= i < descs.len() ==> (#[trigger] descs[i]).write_only && mem.has_slice(
                descs[i].addr as int,
                descs[i].len as int,
            )) && (descs.len() == 0 || descs.len() <= room) && acc + total(pieces_of(descs))
            <= u32::MAX,
    decreases descs.len(),
{
    if descs.len() > 0 {
        let rest = descs.skip(1);
        let first = seq![IoVec { addr: descs[0].addr, len: descs[0].len }];
        assert(pieces_of(descs) =~= first + pieces_of(rest));
        lemma_total_add(first, pieces_of(rest));
        assert(first.drop_last() =~= Seq::<IoVec>::empty());
        assert(total(first.drop_last()) == 0);
        assert(total(first) == descs[0].len);
        lemma_total_nonneg(pieces_of(rest));
        if acc + descs[0].len <= u32::MAX {
            lemma_which_append(rest, mem, room - 1, acc + descs[0].len);
        }
        assert forall|i: int| 0 <= i < rest.len() implies #[trigger] rest[i] == descs[i + 1] by {}
        if append_error(descs, mem, room, acc) is None {
            assert forall|i: int| 0 <= i < descs.len() implies (#[trigger] descs[i]).write_only
                && mem.has_slice(descs[i].addr as int, descs[i].len as int) by {
                if i > 0 {
                    assert(rest[i - 1] == descs[i]);
                }
            }
        }
    } else {
        assert(pieces_of(descs) =~= Seq::<IoVec>::empty());
    }
}

/// What is written to a buffer without overlapping pieces is what memory holds at its addresses.
pub proof fn law_written_bytes_are_there<const L: u16>(
    buffer: IoVecBufferMut<L>,
    before: GuestMemory,
    after: GuestMemory,
    src: Seq<u8>,
    offset: int,
    n: int,
)
    requires
        0 <= n <= src.len(),
        buffer.filled(before, after, src, offset, n),
        forall|k: int, l: int|
            0 <= k < l < n ==> #[trigger] addr_at(buffer.vecs@, offset + k) != #[trigger] addr_at(
                buffer.vecs@,
                offset + l,
            ),
    ensures
        forall|k: int|
            0 <= k < n ==> after.at(#[trigger] addr_at(buffer.vecs@, offset + k)) == src[k],
{
    assert forall|k: int| 0 <= k < n implies after.at(
        #[trigger] addr_at(buffer.vecs@, offset + k),
    ) == src[k] by {
        assert forall|l: int| k < l < n implies #[trigger] addr_at(buffer.vecs@, offset + l)
            != addr_at(buffer.vecs@, offset + k) by {}
    }
}

} // verus!
