//! Contents of guest memory as the device models see them.

use vstd::prelude::*;

verus! {

/// The 16-bit value of two bytes, the least significant one first.
pub open spec fn le16(b: Seq<u8>) -> u16 {
    (b[0] + b[1] * 0x100) as u16
}

/// The 32-bit value of four bytes, the least significant one first.
pub open spec fn le32(b: Seq<u8>) -> u32 {
    (b[0] + b[1] * 0x100 + b[2] * 0x1_0000 + b[3] * 0x100_0000) as u32
}

/// The 64-bit value of eight bytes, the least significant one first.
pub open spec fn le64(b: Seq<u8>) -> u64 {
    (le32(b.subrange(0, 4)) + le32(b.subrange(4, 8)) * 0x1_0000_0000) as u64
}

/// Two bytes with a given value, the least significant one first.
pub open spec fn bytes16(v: u16) -> Seq<u8> {
    seq![(v % 0x100) as u8, (v / 0x100) as u8]
}

/// Four bytes with a given value, the least significant one first.
pub open spec fn bytes32(v: u32) -> Seq<u8> {
    seq![
        (v % 0x100) as u8,
        (v / 0x100 % 0x100) as u8,
        (v / 0x1_0000 % 0x100) as u8,
        (v / 0x100_0000) as u8,
    ]
}

/// Eight bytes with a given value, the least significant one first.
pub open spec fn bytes64(v: u64) -> Seq<u8> {
    bytes32((v % 0x1_0000_0000) as u32) + bytes32((v / 0x1_0000_0000) as u32)
}

/// A value in guest memory is the sum of its bytes, each worth 256 times the one before it.
pub proof fn law_least_significant_byte_first(b: Seq<u8>)
    requires
        b.len() == 8,
    ensures
        le16(b) == b[0] + 256 * b[1],
        le32(b) == b[0] + 256 * b[1] + 65536 * b[2] + 16777216 * b[3],
        le64(b) == b[0] + 256 * b[1] + 65536 * b[2] + 16777216 * b[3] + 4294967296 * (b[4] + 256
            * b[5] + 65536 * b[6] + 16777216 * b[7]),
{
}

/// Reads a 16-bit value at `at`.
pub fn read_le16(b: &[u8], at: usize) -> (v: u16)
    requires
        at + 2 <= b@.len(),
    ensures
        v == le16(b@.subrange(at as int, at + 2)),
{
    b[at] as u16 + b[at + 1] as u16 * 0x100
}

/// Reads a 32-bit value at `at`.
pub fn read_le32(b: &[u8], at: usize) -> (v: u32)
    requires
        at + 4 <= b@.len(),
    ensures
        v == le32(b@.subrange(at as int, at + 4)),
{
    b[at] as u32 + b[at + 1] as u32 * 0x100 + b[at + 2] as u32 * 0x1_0000 + b[at + 3] as u32
        * 0x100_0000
}

/// Reads a 64-bit value at `at`.
pub fn read_le64(b: &[u8], at: usize) -> (v: u64)
    requires
        at + 8 <= b@.len(),
    ensures
        v == le64(b@.subrange(at as int, at + 8)),
{
    let len: usize = b.len();
    assert(at + 8 <= len);
    let lo: u32 = read_le32(b, at);
    let hi: u32 = read_le32(b, at + 4);
    assert(b@.subrange(at as int, at + 8).subrange(0, 4) =~= b@.subrange(at as int, at + 4));
    assert(b@.subrange(at as int, at + 8).subrange(4, 8) =~= b@.subrange(at + 4, at + 8));
    lo as u64 + hi as u64 * 0x1_0000_0000
}

/// The bytes of a 16-bit value.
pub fn to_le16(v: u16) -> (b: Vec<u8>)
    ensures
        b@ == bytes16(v),
{
    let mut b: Vec<u8> = Vec::new();
    b.push((v % 0x100) as u8);
    b.push((v / 0x100) as u8);
    b
}

/// The bytes of a 32-bit value.
pub fn to_le32(v: u32) -> (b: Vec<u8>)
    ensures
        b@ == bytes32(v),
{
    let mut b: Vec<u8> = Vec::new();
    b.push((v % 0x100) as u8);
    b.push((v / 0x100 % 0x100) as u8);
    b.push((v / 0x1_0000 % 0x100) as u8);
    b.push((v / 0x100_0000) as u8);
    b
}

/// The bytes of a 64-bit value.
pub fn to_le64(v: u64) -> (b: Vec<u8>)
    ensures
        b@ == bytes64(v),
{
    let mut b: Vec<u8> = to_le32((v % 0x1_0000_0000) as u32);
    let mut hi: Vec<u8> = to_le32((v / 0x1_0000_0000) as u32);
    b.append(&mut hi);
    b
}

/// The bytes of a 64-bit value read back give the value.
pub proof fn law_bytes64_round_trip(v: u64)
    ensures
        bytes64(v).len() == 8,
        le64(bytes64(v)) == v,
{
    let lo = (v % 0x1_0000_0000) as u32;
    let hi = (v / 0x1_0000_0000) as u32;
    assert(bytes64(v).subrange(0, 4) =~= bytes32(lo));
    assert(bytes64(v).subrange(4, 8) =~= bytes32(hi));
    law_bytes32_round_trip(lo);
    law_bytes32_round_trip(hi);
}

/// The bytes of a 32-bit value read back give the value.
pub proof fn law_bytes32_round_trip(v: u32)
    ensures
        bytes32(v).len() == 4,
        le32(bytes32(v)) == v,
{
}

/// The bytes of a 16-bit value read back give the value.
pub proof fn law_bytes16_round_trip(v: u16)
    ensures
        bytes16(v).len() == 2,
        le16(bytes16(v)) == v,
{
}

/// A contiguous piece of guest memory.
#[derive(Debug)]
pub struct MemoryChunk {
    /// Guest address of the first byte.
    pub start: u64,
    /// The bytes.
    pub data: Vec<u8>,
}

impl MemoryChunk {
    /// Whether a guest address belongs to the piece.
    pub open spec fn covers(self, addr: int) -> bool {
        self.start <= addr < self.start + self.data@.len()
    }
}

/// Guest memory, made of pieces that do not overlap.
#[derive(Debug)]
pub struct GuestMemory {
    chunks: Vec<MemoryChunk>,
}

impl GuestMemory {
    /// The pieces.
    pub closed spec fn pieces(self) -> Seq<MemoryChunk> {
        self.chunks@
    }

    /// The pieces lie in the 64-bit address space and do not overlap.
    pub open spec fn wf(self) -> bool {
        &&& forall|i: int|
            0 <= i < self.pieces().len() ==> (#[trigger] self.pieces()[i]).start
                + self.pieces()[i].data@.len() <= u64::MAX
        &&& forall|i: int, j: int, addr: int|
            0 <= i < self.pieces().len() && 0 <= j < self.pieces().len()
                && #[trigger] self.pieces()[i].covers(addr) && #[trigger] self.pieces()[j].covers(
                addr,
            ) ==> i == j
    }

    /// Whether a guest address is backed by memory.
    pub open spec fn has(self, addr: int) -> bool {
        exists|i: int| 0 <= i < self.pieces().len() && #[trigger] self.pieces()[i].covers(addr)
    }

    /// The byte at a guest address that is backed by memory.
    pub open spec fn at(self, addr: int) -> u8 {
        let i = choose|i: int|
            0 <= i < self.pieces().len() && #[trigger] self.pieces()[i].covers(addr);
        self.pieces()[i].data@[addr - self.pieces()[i].start]
    }

    /// Whether `len` bytes from `addr` on are all backed by memory.
    pub open spec fn has_range(self, addr: int, len: int) -> bool {
        forall|a: int| addr <= a < addr + len ==> #[trigger] self.has(a)
    }

    /// The `len` bytes from `addr` on.
    pub open spec fn bytes(self, addr: int, len: int) -> Seq<u8> {
        Seq::new(len as nat, |i: int| self.at(addr + i))
    }

    /// Whether one piece holds `len` bytes from `addr` on.
    pub open spec fn has_slice(self, addr: int, len: int) -> bool {
        exists|i: int|
            0 <= i < self.pieces().len() && #[trigger] self.pieces()[i].covers(addr) && addr + len
                <= self.pieces()[i].start + self.pieces()[i].data@.len()
    }

    /// The number of bytes, at most `len`, that are backed by memory from `addr` on without a
    /// hole.
    pub open spec fn reach(self, addr: int, len: nat) -> nat
        decreases len,
    {
        if len == 0 {
            0
        } else if self.has(addr) {
            1 + self.reach(addr + 1, (len - 1) as nat)
        } else {
            0
        }
    }

    /// Whether `self` and `other` back the same addresses in the same pieces.
    pub open spec fn same_shape(self, other: GuestMemory) -> bool {
        &&& self.pieces().len() == other.pieces().len()
        &&& forall|i: int|
            0 <= i < self.pieces().len() ==> (#[trigger] self.pieces()[i]).start
                == other.pieces()[i].start && self.pieces()[i].data@.len()
                == other.pieces()[i].data@.len()
    }

    /// Whether `self` is `before` with `data` written from `addr` on.
    pub open spec fn written(self, before: GuestMemory, addr: int, data: Seq<u8>) -> bool {
        &&& self.same_shape(before)
        &&& forall|a: int|
            before.has(a) ==> #[trigger] self.at(a) == if addr <= a < addr + data.len() {
                data[a - addr]
            } else {
                before.at(a)
            }
    }

    proof fn lemma_at(self, i: int, addr: int)
        requires
            self.wf(),
            0 <= i < self.pieces().len(),
            self.pieces()[i].covers(addr),
        ensures
            self.has(addr),
            self.at(addr) == self.pieces()[i].data@[addr - self.pieces()[i].start],
    {
    }

    /// Memory of the same shape backs the same addresses and slices.
    pub proof fn lemma_same_shape(self, other: GuestMemory)
        requires
            self.same_shape(other),
        ensures
            forall|a: int| #[trigger] self.has(a) <==> other.has(a),
            forall|a: int, len: int| #[trigger] self.has_slice(a, len) <==> other.has_slice(a, len),
            forall|a: int, len: int| #[trigger] self.has_range(a, len) <==> other.has_range(a, len),
            other.wf() ==> self.wf(),
    {
        assert forall|a: int| #[trigger] self.has(a) <==> other.has(a) by {
            if self.has(a) {
                let i = choose|i: int|
                    0 <= i < self.pieces().len() && #[trigger] self.pieces()[i].covers(a);
                assert(other.pieces()[i].covers(a));
            }
            if other.has(a) {
                let i = choose|i: int|
                    0 <= i < other.pieces().len() && #[trigger] other.pieces()[i].covers(a);
                assert(self.pieces()[i].covers(a));
            }
        }
        assert forall|a: int, len: int| #[trigger] self.has_slice(a, len) <==> other.has_slice(
            a,
            len,
        ) by {
            if self.has_slice(a, len) {
                let i = choose|i: int|
                    0 <= i < self.pieces().len() && #[trigger] self.pieces()[i].covers(a) && a + len
                        <= self.pieces()[i].start + self.pieces()[i].data@.len();
                assert(other.pieces()[i].covers(a));
            }
            if other.has_slice(a, len) {
                let i = choose|i: int|
                    0 <= i < other.pieces().len() && #[trigger] other.pieces()[i].covers(a) && a
                        + len <= other.pieces()[i].start + other.pieces()[i].data@.len();
                assert(self.pieces()[i].covers(a));
            }
        }
        assert forall|a: int, len: int| #[trigger] self.has_range(a, len) <==> other.has_range(
            a,
            len,
        ) by {
            if self.has_range(a, len) {
                assert forall|b: int| a <= b < a + len implies #[trigger] other.has(b) by {
                    assert(self.has(b));
                }
            }
            if other.has_range(a, len) {
                assert forall|b: int| a <= b < a + len implies #[trigger] self.has(b) by {
                    assert(other.has(b));
                }
            }
        }
        if other.wf() {
            assert forall|i: int, j: int, addr: int|
                0 <= i < self.pieces().len() && 0 <= j < self.pieces().len()
                    && #[trigger] self.pieces()[i].covers(addr)
                    && #[trigger] self.pieces()[j].covers(addr) implies i == j by {
                assert(other.pieces()[i].covers(addr));
                assert(other.pieces()[j].covers(addr));
            }
            assert forall|i: int| 0 <= i < self.pieces().len() implies (
            #[trigger] self.pieces()[i]).start + self.pieces()[i].data@.len() <= u64::MAX by {
                assert(other.pieces()[i].start == self.pieces()[i].start);
            }
        }
    }

    /// A slice is backed by memory throughout.
    pub proof fn lemma_slice_is_range(self, addr: int, len: int)
        requires
            self.has_slice(addr, len),
        ensures
            self.has_range(addr, len),
    {
        let i = choose|i: int|
            0 <= i < self.pieces().len() && #[trigger] self.pieces()[i].covers(addr) && addr + len
                <= self.pieces()[i].start + self.pieces()[i].data@.len();
        assert forall|a: int| addr <= a < addr + len implies #[trigger] self.has(a) by {
            assert(self.pieces()[i].covers(a));
        }
    }

    /// Memory without any piece.
    pub fn empty() -> (r: GuestMemory)
        ensures
            r.wf(),
            r.pieces().len() == 0,
    {
        GuestMemory { chunks: Vec::new() }
    }

    /// Adds a piece unless it leaves the address space or overlaps with another one.
    pub fn add_region(&mut self, start: u64, data: Vec<u8>) -> (added: bool)
        requires
            old(self).wf(),
        ensures
            final(self).wf(),
            added <==> start + data@.len() <= u64::MAX && forall|a: int|
                start <= a < start + data@.len() ==> !#[trigger] old(self).has(a),
            final(self).pieces() == (if added {
                old(self).pieces().push(MemoryChunk { start, data })
            } else {
                old(self).pieces()
            }),
    {
        let len: usize = data.len();
        if len as u64 > u64::MAX - start {
            return false;
        }
        let end: u64 = start + len as u64;
        let mut i: usize = 0;
        while i < self.chunks.len()
            invariant
                i <= self.chunks@.len(),
                *self == *old(self),
                self.wf(),
                end == start + data@.len(),
                len == data@.len(),
                forall|k: int, a: int|
                    0 <= k < i && start <= a < end ==> !#[trigger] self.pieces()[k].covers(a),
            decreases self.chunks.len() - i,
        {
            let first: u64 = self.chunks[i].start;
            let count: usize = self.chunks[i].data.len();
            assert(self.pieces()[i as int].start + count <= u64::MAX);
            if len > 0 && count > 0 && first < end && start < first + count as u64 {
                proof {
                    let a = if first < start {
                        start as int
                    } else {
                        first as int
                    };
                    assert(self.pieces()[i as int].covers(a));
                    assert(self.has(a));
                }
                return false;
            }
            i = i + 1;
        }
        proof {
            assert forall|a: int| start <= a < end implies !#[trigger] self.has(a) by {
                if self.has(a) {
                    let k = choose|k: int|
                        0 <= k < self.pieces().len() && #[trigger] self.pieces()[k].covers(a);
                    assert(false);
                }
            }
        }
        let ghost before = *self;
        self.chunks.push(MemoryChunk { start, data });
        proof {
            let n = before.pieces().len() as int;
            assert forall|i: int, j: int, addr: int|
                0 <= i < self.pieces().len() && 0 <= j < self.pieces().len()
                    && #[trigger] self.pieces()[i].covers(addr)
                    && #[trigger] self.pieces()[j].covers(addr) implies i == j by {
                if i < n {
                    assert(before.pieces()[i].covers(addr));
                    assert(before.has(addr));
                }
                if j < n {
                    assert(before.pieces()[j].covers(addr));
                    assert(before.has(addr));
                }
            }
            assert forall|i: int| 0 <= i < self.pieces().len() implies (
            #[trigger] self.pieces()[i]).start + self.pieces()[i].data@.len() <= u64::MAX by {
                if i < n {
                    assert(before.pieces()[i] == self.pieces()[i]);
                }
            }
        }
        true
    }

    // The piece that holds an address.
    fn find(&self, addr: u64) -> (r: Option<usize>)
        requires
            self.wf(),
        ensures
            r is Some <==> self.has(addr as int),
            r matches Some(i) ==> i < self.chunks@.len() && self.chunks@[i as int].covers(
                addr as int,
            ),
    {
        let mut i: usize = 0;
        while i < self.chunks.len()
            invariant
                i <= self.chunks@.len(),
                forall|k: int| 0 <= k < i ==> !#[trigger] self.pieces()[k].covers(addr as int),
            decreases self.chunks.len() - i,
        {
            let first: u64 = self.chunks[i].start;
            if first <= addr && addr - first < self.chunks[i].data.len() as u64 {
                assert(self.pieces()[i as int].covers(addr as int));
                return Some(i);
            }
            i = i + 1;
        }
        None
    }

    /// The byte at a guest address.
    pub fn read_byte(&self, addr: u64) -> (r: Option<u8>)
        requires
            self.wf(),
        ensures
            r == (if self.has(addr as int) {
                Some(self.at(addr as int))
            } else {
                None
            }),
    {
        match self.find(addr) {
            Some(i) => {
                proof {
                    self.lemma_at(i as int, addr as int);
                }
                let chunk = &self.chunks[i];
                let len: usize = chunk.data.len();
                assert(addr - chunk.start < len);
                let off: usize = (addr - chunk.start) as usize;
                Some(chunk.data[off])
            },
            None => None,
        }
    }

    /// Overwrites the byte at a guest address that is backed by memory.
    pub fn write_byte(&mut self, addr: u64, value: u8)
        requires
            old(self).wf(),
            old(self).has(addr as int),
        ensures
            final(self).wf(),
            final(self).written(*old(self), addr as int, seq![value]),
    {
        let ghost before = *self;
        if let Some(i) = self.find(addr) {
            let len: usize = self.chunks[i].data.len();
            assert(addr - self.chunks@[i as int].start < len);
            let off: usize = (addr - self.chunks[i].start) as usize;
            self.chunks[i].data[off] = value;
            proof {
                assert(self.same_shape(before));
                self.lemma_same_shape(before);
                assert forall|a: int| before.has(a) implies #[trigger] self.at(a) == (if addr <= a
                    < addr + 1 {
                    seq![value][a - addr]
                } else {
                    before.at(a)
                }) by {
                    let k = choose|k: int|
                        0 <= k < before.pieces().len() && #[trigger] before.pieces()[k].covers(a);
                    assert(self.pieces()[k].covers(a));
                    self.lemma_at(k, a);
                    before.lemma_at(k, a);
                    if a == addr {
                        assert(before.pieces()[i as int].covers(a));
                    }
                }
            }
        }
    }

    /// Whether one piece holds `len` bytes from `addr` on.
    pub fn get_slice(&self, addr: u64, len: usize) -> (r: bool)
        requires
            self.wf(),
        ensures
            r == self.has_slice(addr as int, len as int),
    {
        match self.find(addr) {
            Some(i) => {
                let chunk = &self.chunks[i];
                let off: usize = (addr - chunk.start) as usize;
                let r: bool = len <= chunk.data.len() - off;
                proof {
                    if r {
                        assert(self.pieces()[i as int].covers(addr as int));
                    } else if self.has_slice(addr as int, len as int) {
                        let k = choose|k: int|
                            0 <= k < self.pieces().len() && #[trigger] self.pieces()[k].covers(
                                addr as int,
                            ) && addr + len <= self.pieces()[k].start
                                + self.pieces()[k].data@.len();
                        assert(self.pieces()[i as int].covers(addr as int));
                        assert(false);
                    }
                }
                r
            },
            None => {
                proof {
                    if self.has_slice(addr as int, len as int) {
                        let k = choose|k: int|
                            0 <= k < self.pieces().len() && #[trigger] self.pieces()[k].covers(
                                addr as int,
                            ) && addr + len <= self.pieces()[k].start
                                + self.pieces()[k].data@.len();
                        assert(self.has(addr as int));
                    }
                }
                false
            },
        }
    }

    /// Reads `len` bytes from `addr` on, or nothing if some are not backed by memory.
    pub fn read(&self, addr: u64, len: usize) -> (r: Option<Vec<u8>>)
        requires
            self.wf(),
        ensures
            r is Some <==> self.has_range(addr as int, len as int),
            r matches Some(b) ==> b@ == self.bytes(addr as int, len as int),
    {
        let mut b: Vec<u8> = Vec::new();
        let mut i: usize = 0;
        while i < len
            invariant
                self.wf(),
                i <= len,
                b@.len() == i,
                forall|k: int| 0 <= k < i ==> #[trigger] b@[k] == self.at(addr + k),
                forall|a: int| addr <= a < addr + i ==> #[trigger] self.has(a),
            decreases len - i,
        {
            if i as u64 > u64::MAX - addr {
                proof {
                    self.lemma_in_address_space(addr + i);
                    assert(!self.has(addr + i));
                }
                return None;
            }
            match self.read_byte(addr + i as u64) {
                Some(v) => {
                    b.push(v);
                },
                None => {
                    assert(!self.has(addr + i));
                    return None;
                },
            }
            i = i + 1;
        }
        assert(b@ =~= self.bytes(addr as int, len as int));
        Some(b)
    }

    /// What is backed by memory lies in the 64-bit address space.
    pub proof fn lemma_in_address_space(self, addr: int)
        requires
            self.wf(),
        ensures
            self.has(addr) ==> 0 <= addr < u64::MAX,
    {
    }

    /// Reads a 32-bit value.
    pub fn read_u32(&self, addr: u64) -> (r: Option<u32>)
        requires
            self.wf(),
        ensures
            r == (if self.has_range(addr as int, 4) {
                Some(le32(self.bytes(addr as int, 4)))
            } else {
                None
            }),
    {
        match self.read(addr, 4) {
            Some(b) => {
                assert(b@.subrange(0, 4) =~= b@);
                Some(read_le32(b.as_slice(), 0))
            },
            None => None,
        }
    }

    /// How far a range of memory reaches.
    pub proof fn lemma_reach(self, addr: int, len: nat, n: nat)
        requires
            n <= len,
            self.has_range(addr, n as int),
            n < len ==> !self.has(addr + n),
        ensures
            self.reach(addr, len) == n,
        decreases len,
    {
        if len > 0 && n > 0 {
            assert(self.has(addr));
            assert forall|a: int| addr + 1 <= a < addr + 1 + (n - 1) implies #[trigger] self.has(
                a,
            ) by {}
            self.lemma_reach(addr + 1, (len - 1) as nat, (n - 1) as nat);
        }
    }

    /// Writes bytes from `addr` on, up to the first address that is not backed by memory, and
    /// says whether all of them were written.
    pub fn write(&mut self, addr: u64, data: &[u8]) -> (complete: bool)
        requires
            old(self).wf(),
        ensures
            final(self).wf(),
            complete <==> old(self).has_range(addr as int, data@.len() as int),
            final(self).written(
                *old(self),
                addr as int,
                data@.take(old(self).reach(addr as int, data@.len()) as int),
            ),
    {
        let ghost before = *self;
        let mut i: usize = 0;
        while i < data.len()
            invariant
                i <= data@.len(),
                before.wf(),
                self.wf(),
                before == *old(self),
                self.written(before, addr as int, data@.take(i as int)),
                before.has_range(addr as int, i as int),
            decreases data.len() - i,
        {
            proof {
                self.lemma_same_shape(before);
            }
            let present: bool = if i as u64 > u64::MAX - addr {
                proof {
                    before.lemma_in_address_space(addr + i);
                }
                false
            } else {
                self.find(addr + i as u64).is_some()
            };
            if !present {
                proof {
                    assert(!before.has(addr + i));
                    before.lemma_reach(addr as int, data@.len(), i as nat);
                }
                return false;
            }
            let ghost current = *self;
            self.write_byte(addr + i as u64, data[i]);
            proof {
                assert(current.has(addr + i));
                self.lemma_same_shape(current);
                assert forall|a: int| before.has(a) implies #[trigger] self.at(a) == (if addr <= a
                    < addr + (i + 1) {
                    data@.take(i + 1)[a - addr]
                } else {
                    before.at(a)
                }) by {
                    assert(current.has(a));
                    assert(self.at(a) == if addr + i <= a < addr + i + 1 {
                        data@[i as int]
                    } else {
                        current.at(a)
                    });
                }
                assert(self.same_shape(before)) by {
                    assert forall|k: int| 0 <= k < self.pieces().len() implies (
                    #[trigger] self.pieces()[k]).start == before.pieces()[k].start
                        && self.pieces()[k].data@.len() == before.pieces()[k].data@.len() by {
                        assert(current.pieces()[k].start == before.pieces()[k].start);
                    }
                }
            }
            i = i + 1;
        }
        proof {
            before.lemma_reach(addr as int, data@.len(), data@.len());
        }
        true
    }
}

/// Bytes that were written are read back.
pub proof fn law_read_back(before: GuestMemory, after: GuestMemory, addr: int, data: Seq<u8>)
    requires
        before.has_range(addr, data.len() as int),
        after.written(before, addr, data),
    ensures
        after.bytes(addr, data.len() as int) == data,
{
    assert forall|i: int| 0 <= i < data.len() implies #[trigger] after.bytes(
        addr,
        data.len() as int,
    )[i] == data[i] by {
        assert(before.has(addr + i));
    }
    assert(after.bytes(addr, data.len() as int) =~= data);
}

/// Bytes outside of what was written stay as they were.
pub proof fn law_write_is_local(
    before: GuestMemory,
    after: GuestMemory,
    addr: int,
    data: Seq<u8>,
    other: int,
    len: int,
)
    requires
        0 <= len,
        before.has_range(other, len),
        after.written(before, addr, data),
        other + len <= addr || addr + data.len() <= other,
    ensures
        after.bytes(other, len) == before.bytes(other, len),
{
    assert forall|i: int| 0 <= i < len implies #[trigger] after.bytes(other, len)[i]
        == before.bytes(other, len)[i] by {
        assert(before.has(other + i));
    }
    assert(after.bytes(other, len) =~= before.bytes(other, len));
}

/// Bytes can be had as a slice exactly when one piece of memory holds the first and the last of them.
pub proof fn law_slices_lie_in_one_piece(mem: GuestMemory, addr: int, len: int)
    requires
        len > 0,
    ensures
        mem.has_slice(addr, len) <==> exists|i: int|
            0 <= i < mem.pieces().len() && #[trigger] mem.pieces()[i].covers(addr)
                && mem.pieces()[i].covers(addr + len - 1),
        mem.has_slice(addr, len) ==> forall|a: int| addr <= a < addr + len ==> #[trigger] mem.has(a),
{
    if mem.has_slice(addr, len) {
        let i = choose|i: int|
            0 <= i < mem.pieces().len() && #[trigger] mem.pieces()[i].covers(addr) && addr + len
                <= mem.pieces()[i].start + mem.pieces()[i].data@.len();
        assert(mem.pieces()[i].covers(addr) && mem.pieces()[i].covers(addr + len - 1));
        assert forall|a: int| addr <= a < addr + len implies #[trigger] mem.has(a) by {
            assert(mem.pieces()[i].covers(a));
        }
    }
}

} // verus!
