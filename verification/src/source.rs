use vstd::prelude::*;

use crate::error::Error;

verus! {

/// An in-memory byte source: an owned backing buffer and a cursor.
///
/// The view of a source is the sequence of bytes not yet consumed. Decoders
/// touch input only through `read_byte`, `read_exact` and `remaining`.
pub struct ByteSource {
    data: Vec<u8>,
    pos: usize,
}

impl View for ByteSource {
    type V = Seq<u8>;

    closed spec fn view(&self) -> Seq<u8> {
        self.data@.skip(self.pos as int)
    }
}

impl ByteSource {
    /// The cursor never runs past the end of the backing buffer.
    #[verifier::type_invariant]
    spec fn wf(&self) -> bool {
        self.pos <= self.data@.len()
    }

    /// Wrap an owned buffer; every byte of it is unread.
    pub fn new(data: Vec<u8>) -> (s: ByteSource)
        ensures
            s@ == data@,
    {
        ByteSource { data, pos: 0 }
    }

    /// Exactly how many bytes are still unread.
    pub fn remaining(&self) -> (n: usize)
        ensures
            n == self@.len(),
    {
        proof {
            use_type_invariant(self);
        }
        self.data.len() - self.pos
    }

    /// Consume and return the next byte, or fail if none remains.
    pub fn read_byte(&mut self) -> (r: Result<u8, Error>)
        ensures
            old(self)@.len() == 0 ==> r == Err::<u8, Error>(Error::UnexpectedEof)
                && final(self)@ == old(self)@,
            old(self)@.len() > 0 ==> r == Ok::<u8, Error>(old(self)@[0])
                && final(self)@ == old(self)@.skip(1),
    {
        proof {
            use_type_invariant(&*self);
        }
        if self.pos < self.data.len() {
            let b = self.data[self.pos];
            self.pos = self.pos + 1;
            Ok(b)
        } else {
            Err(Error::UnexpectedEof)
        }
    }

    /// Consume and return the next `n` bytes as a fresh vector, or fail
    /// without consuming anything (and without allocating) if fewer remain.
    pub fn read_exact(&mut self, n: usize) -> (r: Result<Vec<u8>, Error>)
        ensures
            n > old(self)@.len() ==> r == Err::<Vec<u8>, Error>(Error::UnexpectedEof)
                && final(self)@ == old(self)@,
            n <= old(self)@.len() ==> {
                &&& r is Ok
                &&& r->Ok_0@ == old(self)@.take(n as int)
                &&& final(self)@ == old(self)@.skip(n as int)
            },
    {
        proof {
            use_type_invariant(&*self);
        }
        if n > self.data.len() - self.pos {
            return Err(Error::UnexpectedEof);
        }
        let dlen = self.data.len();
        let mut out: Vec<u8> = Vec::new();
        let mut i: usize = 0;
        while i < n
            invariant
                i <= n,
                self == old(self),
                dlen == self.data@.len(),
                self.pos + n <= dlen,
                out@ == self.data@.subrange(self.pos as int, self.pos + i as int),
            decreases n - i,
        {
            out.push(self.data[self.pos + i]);
            i = i + 1;
        }
        proof {
            assert(out@ =~= old(self)@.take(n as int));
        }
        self.pos = self.pos + n;
        proof {
            assert(self@ =~= old(self)@.skip(n as int));
        }
        Ok(out)
    }
}

} // verus!
