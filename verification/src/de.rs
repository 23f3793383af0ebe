use vstd::prelude::*;

use crate::error::Error;
use crate::source::ByteSource;

verus! {

/// A type that can be decoded from the format.
///
/// The meaning of decoding is fixed once, on bytes alone, by
/// `spec_deserialize`: it names the mathematical value decoded (a
/// `Self::Model`) and the exact number of bytes consumed, or the error.
/// The executable `deserialize` is proved to agree with it, and
/// `try_from_slice` additionally enforces that a top-level decode consumes
/// its input exactly.
pub trait BorshDeserialize: Sized {
    /// The mathematical value a decoded result stands for: the value itself
    /// for plain types, a `Seq` for buffers and sequences. Types whose
    /// contents this crate cannot pin down through their model (hashed
    /// containers) use `()` and state their contents separately.
    type Model;

    /// The model of one decoded value.
    spec fn model(&self) -> Self::Model;

    /// What decoding means, on bytes alone: the model of the decoded value
    /// and the exact count of bytes consumed, or the error.
    spec fn spec_deserialize(bytes: Seq<u8>) -> Result<(Self::Model, int), Error>;

    /// Decode one value from the source, consuming exactly the bytes that
    /// `spec_deserialize` says an encoding of the result occupies.
    ///
    /// On failure the cursor is left wherever it had advanced to; a caller
    /// must treat the source as spent.
    fn deserialize(input: &mut ByteSource) -> (r: Result<Self, Error>)
        ensures
            match Self::spec_deserialize(old(input)@) {
                Ok(p) => {
                    &&& r is Ok
                    &&& r->Ok_0.model() == p.0
                    &&& 0 <= p.1 <= old(input)@.len()
                    &&& final(input)@ == old(input)@.skip(p.1)
                },
                Err(e) => r == Err::<Self, Error>(e),
            },
    ;

    /// Decode one value from a byte slice, and fail with
    /// `Error::NotAllBytesRead` unless the whole slice was consumed.
    ///
    /// The slice is copied first; the caller's bytes are never mutated or
    /// aliased by the decoded value.
    fn try_from_slice(v: &[u8]) -> (r: Result<Self, Error>)
        ensures
            match Self::spec_deserialize(v@) {
                Ok(p) => {
                    if p.1 == v@.len() {
                        r is Ok && r->Ok_0.model() == p.0
                    } else {
                        r == Err::<Self, Error>(Error::NotAllBytesRead)
                    }
                },
                Err(e) => r == Err::<Self, Error>(e),
            },
    {
        let mut input = ByteSource::new(vstd::slice::slice_to_vec(v));
        let result = match Self::deserialize(&mut input) {
            Ok(x) => x,
            Err(e) => {
                return Err(e);
            },
        };
        if input.remaining() > 0 {
            return Err(Error::NotAllBytesRead);
        }
        Ok(result)
    }
}

impl BorshDeserialize for u8 {
    type Model = u8;

    open spec fn model(&self) -> u8 {
        *self
    }

    open spec fn spec_deserialize(bytes: Seq<u8>) -> Result<(u8, int), Error> {
        if bytes.len() < 1 {
            Err(Error::UnexpectedEof)
        } else {
            Ok((bytes[0], 1))
        }
    }

    fn deserialize(input: &mut ByteSource) -> (r: Result<u8, Error>) {
        input.read_byte()
    }
}

impl BorshDeserialize for bool {
    type Model = bool;

    open spec fn model(&self) -> bool {
        *self
    }

    /// A byte of 1 decodes to true; any other byte decodes to false.
    open spec fn spec_deserialize(bytes: Seq<u8>) -> Result<(bool, int), Error> {
        if bytes.len() < 1 {
            Err(Error::UnexpectedEof)
        } else {
            Ok((bytes[0] == 1, 1))
        }
    }

    fn deserialize(input: &mut ByteSource) -> (r: Result<bool, Error>) {
        match input.read_byte() {
            Ok(b) => Ok(b == 1),
            Err(e) => Err(e),
        }
    }
}

} // verus!
