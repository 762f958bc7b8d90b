//! Bytes that have arrived and are waiting to be decoded.

use crate::runtime::error::{IoError, IoErrorKind};
use vstd::prelude::*;

verus! {

/// A run of bytes with a reading position.  Reading takes bytes from the
/// front; asking for more than is left fails and leaves nothing behind.
pub struct ByteReader {
    data: Vec<u8>,
    pos: usize,
}

impl View for ByteReader {
    type V = Seq<u8>;

    /// The bytes that are still to be read.
    closed spec fn view(&self) -> Seq<u8> {
        self.data@.skip(self.pos as int)
    }
}

/// True for the error that reading past the end gives.
pub open spec fn is_unexpected_eof(e: IoError) -> bool {
    e.kind == IoErrorKind::UnexpectedEof && e.message@ == "failed to fill whole buffer"@
}

impl ByteReader {
    /// The reading position lies inside the bytes or at their end.
    #[verifier::type_invariant]
    spec fn in_bounds(self) -> bool {
        self.pos <= self.data@.len()
    }

    /// A reader over the bytes given.
    pub fn new(data: Vec<u8>) -> (reader: ByteReader)
        ensures
            reader@ == data@,
    {
        let reader = ByteReader { data, pos: 0 };
        assert(reader@ =~= data@);
        reader
    }

    /// The number of bytes that are still to be read.
    pub fn remaining(&self) -> (n: usize)
        ensures
            n == self@.len(),
    {
        proof {
            use_type_invariant(self);
        }
        self.data.len() - self.pos
    }

    /// Takes the next `count` bytes.
    pub fn read_exact(&mut self, count: usize) -> (r: Result<Vec<u8>, IoError>)
        ensures
            count <= old(self)@.len() <==> r is Ok,
            r matches Ok(bytes) ==> bytes@ == old(self)@.take(count as int) && final(self)@ == old(
                self,
            )@.skip(count as int),
            r matches Err(e) ==> is_unexpected_eof(e) && final(self)@.len() == 0,
    {
        proof {
            use_type_invariant(&*self);
        }
        if count > self.remaining() {
            self.pos = self.data.len();
            assert(self@ =~= Seq::<u8>::empty());
            return Err(IoError::new(IoErrorKind::UnexpectedEof, "failed to fill whole buffer"));
        }
        let mut bytes: Vec<u8> = Vec::with_capacity(count);
        let start = self.pos;
        let len = self.data.len();
        let mut i: usize = 0;
        while i < count
            invariant
                i <= count,
                len == self.data@.len(),
                start == self.pos,
                start + count <= self.data@.len(),
                bytes@ == self.data@.subrange(start as int, start + i),
            decreases count - i,
        {
            bytes.push(self.data[start + i]);
            i += 1;
            assert(bytes@ =~= self.data@.subrange(start as int, start + i));
        }
        self.pos = start + count;
        assert(bytes@ =~= old(self)@.take(count as int));
        assert(self@ =~= old(self)@.skip(count as int));
        Ok(bytes)
    }
}

} // verus!
