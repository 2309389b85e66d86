//! A small network stack.

use vstd::prelude::*;

pub mod tcp;

verus! {

/// Something that bytes can be read from.
pub trait ByteBuffer {
    /// The bytes.
    spec fn bytes(&self) -> Seq<u8>;

    /// The number of bytes.
    fn len(&self) -> (r: usize)
        ensures
            r == self.bytes().len(),
    ;

    /// Fills `buf` with the bytes from an offset on.
    fn read_to_slice(&self, offset: usize, buf: &mut Vec<u8>)
        requires
            offset + old(buf)@.len() <= self.bytes().len(),
        ensures
            final(buf)@ == self.bytes().subrange(offset as int, offset + old(buf)@.len()),
    ;
}

impl ByteBuffer for [u8] {
    open spec fn bytes(&self) -> Seq<u8> {
        self@
    }

    fn len(&self) -> (r: usize) {
        <[u8]>::len(self)
    }

    fn read_to_slice(&self, offset: usize, buf: &mut Vec<u8>) {
        let n: usize = buf.len();
        let all: usize = <[u8]>::len(self);
        let mut i: usize = 0;
        while i < n
            invariant
                n == old(buf)@.len(),
                buf@.len() == n,
                i <= n,
                offset + n <= all,
                all == self@.len(),
                forall|j: int| 0 <= j < i ==> #[trigger] buf@[j] == self@[offset + j],
            decreases n - i,
        {
            buf.set(i, self[offset + i]);
            i += 1;
        }
        assert(buf@ =~= self@.subrange(offset as int, offset + n));
    }
}

} // verus!
