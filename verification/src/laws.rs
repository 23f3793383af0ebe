use vstd::prelude::*;

use crate::buffers::ByteBuf;
use crate::composites::spec_deserialize_elems;
use crate::de::BorshDeserialize;
use crate::error::Error;
use crate::error::ErrorKind;
use crate::net::SocketAddr;
use crate::net::SocketAddrModel;
use crate::scalars::Float32;
use crate::scalars::Float64;
use crate::scalars::is_nan32;
use crate::scalars::is_nan64;
use crate::wire::le_value;

verus! {

/// Decoding exactly the encoding of a value yields that value back and
/// consumes every byte of it, so the top-level full-consumption check
/// passes: with the encoding alone as input, `try_from_slice`'s contract
/// promises the decoded value.
pub proof fn lemma_exact_consumption<T: crate::roundtrip::RoundTrip>(m: T::Model)
    requires
        T::encodable(m),
    ensures
        T::spec_deserialize(T::spec_encode(m)) == Ok::<(T::Model, int), Error>(
            (m, T::spec_encode(m).len() as int),
        ),
{
    T::lemma_round_trip(m, Seq::empty());
    assert(T::spec_encode(m) + Seq::<u8>::empty() =~= T::spec_encode(m));
}

/// A complete encoding followed by any trailing bytes decodes to the same
/// value but consumes less than the whole input, so the top-level
/// full-consumption check fails: on such input `try_from_slice`'s contract
/// promises `NotAllBytesRead`.
pub proof fn lemma_trailing_bytes_detected<T: crate::roundtrip::RoundTrip>(
    m: T::Model,
    extra: Seq<u8>,
)
    requires
        T::encodable(m),
        extra.len() > 0,
    ensures
        ({
            let enc = T::spec_encode(m);
            T::spec_deserialize(enc + extra) == Ok::<(T::Model, int), Error>(
                (m, enc.len() as int),
            ) && enc.len() < (enc + extra).len()
        }),
{
    T::lemma_round_trip(m, extra);
}

/// A flag byte of 0 always decodes an optional value to absent, whatever
/// the payload type, and consumes exactly one byte.
pub proof fn lemma_optional_absent<T: BorshDeserialize>(bytes: Seq<u8>)
    requires
        bytes.len() >= 1,
        bytes[0] == 0,
    ensures
        <Option<T> as BorshDeserialize>::spec_deserialize(bytes) == Ok::<
            (Option<T::Model>, int),
            Error,
        >((None, 1)),
{
}

/// Any 32-bit NaN pattern fails float decoding with an invalid-input error,
/// never with a crash: decoding is total on all byte sequences.
pub proof fn lemma_float32_nan_rejected(bytes: Seq<u8>)
    requires
        bytes.len() >= 4,
        is_nan32(le_value(bytes.take(4)) as u32),
    ensures
        Float32::spec_deserialize(bytes) == Err::<(Float32, int), Error>(Error::NanDisallowed),
        Error::NanDisallowed.spec_kind() == ErrorKind::InvalidInput,
{
}

/// Any 64-bit NaN pattern fails float decoding with an invalid-input error.
pub proof fn lemma_float64_nan_rejected(bytes: Seq<u8>)
    requires
        bytes.len() >= 8,
        is_nan64(le_value(bytes.take(8)) as u64),
    ensures
        Float64::spec_deserialize(bytes) == Err::<(Float64, int), Error>(Error::NanDisallowed),
        Error::NanDisallowed.spec_kind() == ErrorKind::InvalidInput,
{
}

/// Decoding more byte elements than the input holds runs out with
/// `UnexpectedEof`: each element consumes at least one byte.
proof fn lemma_byte_elems_eof(bytes: Seq<u8>, count: nat)
    requires
        count > bytes.len(),
    ensures
        spec_deserialize_elems::<u8>(bytes, count) == Err::<(Seq<u8>, int), Error>(
            Error::UnexpectedEof,
        ),
    decreases count,
{
    if bytes.len() > 0 {
        lemma_byte_elems_eof(bytes.skip(1), (count - 1) as nat)
    }
}

/// A sequence of bytes whose declared length exceeds the bytes remaining
/// fails with `UnexpectedEof`; the decoder never trusts the declared length
/// with an allocation, it allocates only per element actually decoded.
pub proof fn lemma_sequence_truncated(bytes: Seq<u8>)
    requires
        bytes.len() >= 4,
        le_value(bytes.take(4)) > bytes.len() - 4,
    ensures
        <Vec<u8> as BorshDeserialize>::spec_deserialize(bytes) == Err::<(Seq<u8>, int), Error>(
            Error::UnexpectedEof,
        ),
{
    lemma_byte_elems_eof(bytes.skip(4), le_value(bytes.take(4)));
}

/// A length-prefixed buffer whose declared length exceeds the remaining
/// input is refused with an invalid-input error before anything is read or
/// allocated.
pub proof fn lemma_byte_buf_guard(bytes: Seq<u8>)
    requires
        bytes.len() >= 4,
        le_value(bytes.take(4)) > bytes.len() - 4,
    ensures
        ByteBuf::spec_deserialize(bytes) == Err::<(Seq<u8>, int), Error>(
            Error::LengthExceedsRemaining,
        ),
        Error::LengthExceedsRemaining.spec_kind() == ErrorKind::InvalidInput,
{
}

/// A socket-address discriminant byte other than 0 or 1 fails with an
/// invalid-input error that cites the offending byte.
pub proof fn lemma_socket_addr_unknown_variant(bytes: Seq<u8>)
    requires
        bytes.len() >= 1,
        bytes[0] != 0,
        bytes[0] != 1,
    ensures
        SocketAddr::spec_deserialize(bytes) == Err::<(SocketAddrModel, int), Error>(
            Error::InvalidSocketAddrVariant(bytes[0]),
        ),
        Error::InvalidSocketAddrVariant(bytes[0]).spec_kind() == ErrorKind::InvalidInput,
{
}

} // verus!
