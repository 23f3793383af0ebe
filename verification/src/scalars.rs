use vstd::prelude::*;

use crate::de::BorshDeserialize;
use crate::error::Error;
use crate::source::ByteSource;
use crate::wire::le_value;
use crate::wire::lemma_le_value_bound;
use crate::wire::pow256;
use crate::wire::read_le;
use crate::wire::read_le_signed;
use crate::wire::signed_of;

verus! {

impl BorshDeserialize for u16 {
    type Model = u16;

    open spec fn model(&self) -> u16 {
        *self
    }

    open spec fn spec_deserialize(bytes: Seq<u8>) -> Result<(u16, int), Error> {
        if bytes.len() < 2 {
            Err(Error::UnexpectedEof)
        } else {
            Ok((le_value(bytes.take(2)) as u16, 2))
        }
    }

    fn deserialize(input: &mut ByteSource) -> (r: Result<u16, Error>) {
        match read_le(input, 2) {
            Ok(v) => {
                proof {
                    lemma_le_value_bound(old(input)@.take(2));
                    reveal_with_fuel(pow256, 3);
                }
                Ok(v as u16)
            },
            Err(e) => Err(e),
        }
    }
}

impl BorshDeserialize for u32 {
    type Model = u32;

    open spec fn model(&self) -> u32 {
        *self
    }

    open spec fn spec_deserialize(bytes: Seq<u8>) -> Result<(u32, int), Error> {
        if bytes.len() < 4 {
            Err(Error::UnexpectedEof)
        } else {
            Ok((le_value(bytes.take(4)) as u32, 4))
        }
    }

    fn deserialize(input: &mut ByteSource) -> (r: Result<u32, Error>) {
        match read_le(input, 4) {
            Ok(v) => {
                proof {
                    lemma_le_value_bound(old(input)@.take(4));
                    reveal_with_fuel(pow256, 5);
                }
                Ok(v as u32)
            },
            Err(e) => Err(e),
        }
    }
}

impl BorshDeserialize for u64 {
    type Model = u64;

    open spec fn model(&self) -> u64 {
        *self
    }

    open spec fn spec_deserialize(bytes: Seq<u8>) -> Result<(u64, int), Error> {
        if bytes.len() < 8 {
            Err(Error::UnexpectedEof)
        } else {
            Ok((le_value(bytes.take(8)) as u64, 8))
        }
    }

    fn deserialize(input: &mut ByteSource) -> (r: Result<u64, Error>) {
        match read_le(input, 8) {
            Ok(v) => {
                proof {
                    lemma_le_value_bound(old(input)@.take(8));
                    reveal_with_fuel(pow256, 9);
                }
                Ok(v as u64)
            },
            Err(e) => Err(e),
        }
    }
}

impl BorshDeserialize for u128 {
    type Model = u128;

    open spec fn model(&self) -> u128 {
        *self
    }

    open spec fn spec_deserialize(bytes: Seq<u8>) -> Result<(u128, int), Error> {
        if bytes.len() < 16 {
            Err(Error::UnexpectedEof)
        } else {
            Ok((le_value(bytes.take(16)) as u128, 16))
        }
    }

    fn deserialize(input: &mut ByteSource) -> (r: Result<u128, Error>) {
        match read_le(input, 16) {
            Ok(v) => {
                proof {
                    lemma_le_value_bound(old(input)@.take(16));
                    reveal_with_fuel(pow256, 17);
                }
                Ok(v)
            },
            Err(e) => Err(e),
        }
    }
}

impl BorshDeserialize for i8 {
    type Model = i8;

    open spec fn model(&self) -> i8 {
        *self
    }

    open spec fn spec_deserialize(bytes: Seq<u8>) -> Result<(i8, int), Error> {
        if bytes.len() < 1 {
            Err(Error::UnexpectedEof)
        } else {
            Ok((signed_of(le_value(bytes.take(1)), 1) as i8, 1))
        }
    }

    fn deserialize(input: &mut ByteSource) -> (r: Result<i8, Error>) {
        match read_le_signed(input, 1) {
            Ok(v) => {
                proof {
                    lemma_le_value_bound(old(input)@.take(1));
                    reveal_with_fuel(pow256, 2);
                }
                Ok(v as i8)
            },
            Err(e) => Err(e),
        }
    }
}

impl BorshDeserialize for i16 {
    type Model = i16;

    open spec fn model(&self) -> i16 {
        *self
    }

    open spec fn spec_deserialize(bytes: Seq<u8>) -> Result<(i16, int), Error> {
        if bytes.len() < 2 {
            Err(Error::UnexpectedEof)
        } else {
            Ok((signed_of(le_value(bytes.take(2)), 2) as i16, 2))
        }
    }

    fn deserialize(input: &mut ByteSource) -> (r: Result<i16, Error>) {
        match read_le_signed(input, 2) {
            Ok(v) => {
                proof {
                    lemma_le_value_bound(old(input)@.take(2));
                    reveal_with_fuel(pow256, 3);
                }
                Ok(v as i16)
            },
            Err(e) => Err(e),
        }
    }
}

impl BorshDeserialize for i32 {
    type Model = i32;

    open spec fn model(&self) -> i32 {
        *self
    }

    open spec fn spec_deserialize(bytes: Seq<u8>) -> Result<(i32, int), Error> {
        if bytes.len() < 4 {
            Err(Error::UnexpectedEof)
        } else {
            Ok((signed_of(le_value(bytes.take(4)), 4) as i32, 4))
        }
    }

    fn deserialize(input: &mut ByteSource) -> (r: Result<i32, Error>) {
        match read_le_signed(input, 4) {
            Ok(v) => {
                proof {
                    lemma_le_value_bound(old(input)@.take(4));
                    reveal_with_fuel(pow256, 5);
                }
                Ok(v as i32)
            },
            Err(e) => Err(e),
        }
    }
}

impl BorshDeserialize for i64 {
    type Model = i64;

    open spec fn model(&self) -> i64 {
        *self
    }

    open spec fn spec_deserialize(bytes: Seq<u8>) -> Result<(i64, int), Error> {
        if bytes.len() < 8 {
            Err(Error::UnexpectedEof)
        } else {
            Ok((signed_of(le_value(bytes.take(8)), 8) as i64, 8))
        }
    }

    fn deserialize(input: &mut ByteSource) -> (r: Result<i64, Error>) {
        match read_le_signed(input, 8) {
            Ok(v) => {
                proof {
                    lemma_le_value_bound(old(input)@.take(8));
                    reveal_with_fuel(pow256, 9);
                }
                Ok(v as i64)
            },
            Err(e) => Err(e),
        }
    }
}

impl BorshDeserialize for i128 {
    type Model = i128;

    open spec fn model(&self) -> i128 {
        *self
    }

    open spec fn spec_deserialize(bytes: Seq<u8>) -> Result<(i128, int), Error> {
        if bytes.len() < 16 {
            Err(Error::UnexpectedEof)
        } else {
            Ok((signed_of(le_value(bytes.take(16)), 16) as i128, 16))
        }
    }

    fn deserialize(input: &mut ByteSource) -> (r: Result<i128, Error>) {
        match read_le_signed(input, 16) {
            Ok(v) => {
                proof {
                    lemma_le_value_bound(old(input)@.take(16));
                    reveal_with_fuel(pow256, 17);
                }
                Ok(v)
            },
            Err(e) => Err(e),
        }
    }
}

/// A 32-bit IEEE float carried as its bit pattern.
///
/// The decoder validates the pattern (no NaN) but never does float
/// arithmetic; turning the bits into a native float is a caller's one-line
/// step outside this crate.
#[derive(Clone, Copy, Debug, PartialEq, Eq, Structural)]
pub struct Float32 {
    pub bits: u32,
}

/// A 64-bit IEEE float carried as its bit pattern.
#[derive(Clone, Copy, Debug, PartialEq, Eq, Structural)]
pub struct Float64 {
    pub bits: u64,
}

/// Whether a 32-bit pattern is a NaN: exponent all ones, fraction nonzero.
pub open spec fn is_nan32(bits: u32) -> bool {
    (bits >> 23) & 0xff == 0xff && bits & 0x7fffff != 0
}

/// Whether a 64-bit pattern is a NaN: exponent all ones, fraction nonzero.
pub open spec fn is_nan64(bits: u64) -> bool {
    (bits >> 52) & 0x7ff == 0x7ff && bits & 0xfffffffffffff != 0
}

impl BorshDeserialize for Float32 {
    type Model = Float32;

    open spec fn model(&self) -> Float32 {
        *self
    }

    /// NaN bit patterns are rejected for portability of the format.
    open spec fn spec_deserialize(bytes: Seq<u8>) -> Result<(Float32, int), Error> {
        if bytes.len() < 4 {
            Err(Error::UnexpectedEof)
        } else if is_nan32(le_value(bytes.take(4)) as u32) {
            Err(Error::NanDisallowed)
        } else {
            Ok((Float32 { bits: le_value(bytes.take(4)) as u32 }, 4))
        }
    }

    fn deserialize(input: &mut ByteSource) -> (r: Result<Float32, Error>) {
        match read_le(input, 4) {
            Ok(v) => {
                proof {
                    lemma_le_value_bound(old(input)@.take(4));
                    reveal_with_fuel(pow256, 5);
                }
                let bits = v as u32;
                if (bits >> 23) & 0xff == 0xff && bits & 0x7fffff != 0 {
                    Err(Error::NanDisallowed)
                } else {
                    Ok(Float32 { bits })
                }
            },
            Err(e) => Err(e),
        }
    }
}

impl BorshDeserialize for Float64 {
    type Model = Float64;

    open spec fn model(&self) -> Float64 {
        *self
    }

    /// NaN bit patterns are rejected for portability of the format.
    open spec fn spec_deserialize(bytes: Seq<u8>) -> Result<(Float64, int), Error> {
        if bytes.len() < 8 {
            Err(Error::UnexpectedEof)
        } else if is_nan64(le_value(bytes.take(8)) as u64) {
            Err(Error::NanDisallowed)
        } else {
            Ok((Float64 { bits: le_value(bytes.take(8)) as u64 }, 8))
        }
    }

    fn deserialize(input: &mut ByteSource) -> (r: Result<Float64, Error>) {
        match read_le(input, 8) {
            Ok(v) => {
                proof {
                    lemma_le_value_bound(old(input)@.take(8));
                    reveal_with_fuel(pow256, 9);
                }
                let bits = v as u64;
                if (bits >> 52) & 0x7ff == 0x7ff && bits & 0xfffffffffffff != 0 {
                    Err(Error::NanDisallowed)
                } else {
                    Ok(Float64 { bits })
                }
            },
            Err(e) => Err(e),
        }
    }
}

} // verus!
