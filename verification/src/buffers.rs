use vstd::prelude::*;

use crate::de::BorshDeserialize;
use crate::error::Error;
use crate::source::ByteSource;
use crate::wire::le_value;
use crate::wire::lemma_le_value_bound;
use crate::wire::pow256;
use crate::wire::read_le;

verus! {

/// The characters a byte sequence holds when it is valid UTF-8, and nothing
/// when it is not. What this function returns on given bytes is fixed by the
/// UTF-8 coding itself; this crate does not restate that coding but relies on
/// the standard library's validator through `string_from_utf8`.
pub uninterp spec fn chars_of_utf8(bytes: Seq<u8>) -> Option<Seq<char>>;

/// Relies on String::from_utf8: it succeeds exactly on valid UTF-8, and the
/// characters of the result are a function of the bytes alone.
#[verifier::external_body]
fn string_from_utf8(bytes: Vec<u8>) -> (r: Option<String>)
    ensures
        r is Some <==> chars_of_utf8(bytes@) is Some,
        r is Some ==> r->Some_0@ == chars_of_utf8(bytes@)->Some_0,
{
    match String::from_utf8(bytes) {
        Ok(s) => Some(s),
        Err(_) => None,
    }
}

impl BorshDeserialize for String {
    type Model = Seq<char>;

    open spec fn model(&self) -> Seq<char> {
        self@
    }

    /// A 4-byte little-endian byte length, then that many bytes of UTF-8.
    /// Fewer bytes than declared fail with `UnexpectedEof`; bytes that are
    /// not UTF-8 fail with `InvalidUtf8`.
    open spec fn spec_deserialize(bytes: Seq<u8>) -> Result<(Seq<char>, int), Error> {
        if bytes.len() < 4 {
            Err(Error::UnexpectedEof)
        } else {
            let count = le_value(bytes.take(4)) as int;
            if count > bytes.len() - 4 {
                Err(Error::UnexpectedEof)
            } else {
                match chars_of_utf8(bytes.skip(4).take(count)) {
                    Some(cs) => Ok((cs, 4 + count)),
                    None => Err(Error::InvalidUtf8),
                }
            }
        }
    }

    fn deserialize(input: &mut ByteSource) -> (r: Result<String, Error>) {
        let len128 = match read_le(input, 4) {
            Ok(v) => v,
            Err(e) => {
                return Err(e);
            },
        };
        proof {
            lemma_le_value_bound(old(input)@.take(4));
            reveal_with_fuel(pow256, 5);
        }
        let count = len128 as usize;
        let payload = match input.read_exact(count) {
            Ok(b) => b,
            Err(e) => {
                return Err(e);
            },
        };
        proof {
            assert(input@ =~= old(input)@.skip(4 + count));
        }
        match string_from_utf8(payload) {
            Some(s) => Ok(s),
            None => Err(Error::InvalidUtf8),
        }
    }
}

/// A length-prefixed buffer of raw bytes, decoded only after checking that
/// the declared length does not exceed what remains in the source.
#[derive(Clone, Debug, PartialEq, Eq)]
pub struct ByteBuf {
    pub bytes: Vec<u8>,
}

impl BorshDeserialize for ByteBuf {
    type Model = Seq<u8>;

    open spec fn model(&self) -> Seq<u8> {
        self.bytes@
    }

    /// A 4-byte little-endian byte length, then that many raw bytes. A
    /// length beyond the remaining input is refused with
    /// `LengthExceedsRemaining` before any allocation.
    open spec fn spec_deserialize(bytes: Seq<u8>) -> Result<(Seq<u8>, int), Error> {
        if bytes.len() < 4 {
            Err(Error::UnexpectedEof)
        } else {
            let count = le_value(bytes.take(4)) as int;
            if count > bytes.len() - 4 {
                Err(Error::LengthExceedsRemaining)
            } else {
                Ok((bytes.skip(4).take(count), 4 + count))
            }
        }
    }

    fn deserialize(input: &mut ByteSource) -> (r: Result<ByteBuf, Error>) {
        let len128 = match read_le(input, 4) {
            Ok(v) => v,
            Err(e) => {
                return Err(e);
            },
        };
        proof {
            lemma_le_value_bound(old(input)@.take(4));
            reveal_with_fuel(pow256, 5);
        }
        let count = len128 as usize;
        if count > input.remaining() {
            return Err(Error::LengthExceedsRemaining);
        }
        let payload = match input.read_exact(count) {
            Ok(b) => b,
            Err(e) => {
                return Err(e);
            },
        };
        proof {
            assert(input@ =~= old(input)@.skip(4 + count));
        }
        Ok(ByteBuf { bytes: payload })
    }
}

} // verus!
