use vstd::prelude::*;

use crate::buffers::ByteBuf;
use crate::composites::spec_deserialize_elems;
use crate::de::BorshDeserialize;
use crate::error::Error;
use crate::net::Ipv4Addr;
use crate::net::Ipv6Addr;
use crate::net::SocketAddr;
use crate::net::SocketAddrModel;
use crate::net::SocketAddrV4;
use crate::net::SocketAddrV6;
use crate::scalars::Float32;
use crate::scalars::Float64;
use crate::scalars::is_nan32;
use crate::scalars::is_nan64;
use crate::wire::le_bytes_of;
use crate::wire::lemma_le_bytes_of_len;
use crate::wire::lemma_le_round_trip;
use crate::wire::pow256;
use crate::wire::unsigned_of;

verus! {

/// Types whose decoding provably inverts the format's encoding.
///
/// `spec_encode` states the bytes an encoder emits for a model value, and
/// `lemma_round_trip` proves that decoding them, with anything behind,
/// yields exactly that value and consumes exactly the encoding. Types whose
/// decode is deliberately lossy (sets and maps collapse duplicates) or whose
/// encoding this crate does not state (strings) do not implement it.
pub trait RoundTrip: BorshDeserialize {
    /// The bytes an encoder emits for the model value `m`.
    spec fn spec_encode(m: Self::Model) -> Seq<u8>;

    /// Which model values an encoder can produce at all: sizes that fit
    /// their length fields, and no NaN float patterns.
    spec fn encodable(m: Self::Model) -> bool;

    /// Decoding an encoding of `m` yields exactly `m` and consumes exactly
    /// the encoding, whatever bytes follow it.
    proof fn lemma_round_trip(m: Self::Model, rest: Seq<u8>)
        requires
            Self::encodable(m),
        ensures
            ({
                let enc = Self::spec_encode(m);
                Self::spec_deserialize(enc + rest) == Ok::<(Self::Model, int), Error>(
                    (m, enc.len() as int),
                )
            }),
    ;
}

impl RoundTrip for u8 {
    open spec fn spec_encode(m: u8) -> Seq<u8> {
        seq![m]
    }

    open spec fn encodable(m: u8) -> bool {
        true
    }

    proof fn lemma_round_trip(m: u8, rest: Seq<u8>) {
        assert((seq![m] + rest)[0] == m);
    }
}

impl RoundTrip for u16 {
    open spec fn spec_encode(m: u16) -> Seq<u8> {
        le_bytes_of(m as nat, 2)
    }

    open spec fn encodable(m: u16) -> bool {
        true
    }

    proof fn lemma_round_trip(m: u16, rest: Seq<u8>) {
        reveal_with_fuel(pow256, 3);
        lemma_le_bytes_of_len(m as nat, 2);
        lemma_le_round_trip(m as nat, 2);
        assert((le_bytes_of(m as nat, 2) + rest).take(2) =~= le_bytes_of(m as nat, 2));
    }
}

impl RoundTrip for u32 {
    open spec fn spec_encode(m: u32) -> Seq<u8> {
        le_bytes_of(m as nat, 4)
    }

    open spec fn encodable(m: u32) -> bool {
        true
    }

    proof fn lemma_round_trip(m: u32, rest: Seq<u8>) {
        reveal_with_fuel(pow256, 5);
        lemma_le_bytes_of_len(m as nat, 4);
        lemma_le_round_trip(m as nat, 4);
        assert((le_bytes_of(m as nat, 4) + rest).take(4) =~= le_bytes_of(m as nat, 4));
    }
}

impl RoundTrip for u64 {
    open spec fn spec_encode(m: u64) -> Seq<u8> {
        le_bytes_of(m as nat, 8)
    }

    open spec fn encodable(m: u64) -> bool {
        true
    }

    proof fn lemma_round_trip(m: u64, rest: Seq<u8>) {
        reveal_with_fuel(pow256, 9);
        lemma_le_bytes_of_len(m as nat, 8);
        lemma_le_round_trip(m as nat, 8);
        assert((le_bytes_of(m as nat, 8) + rest).take(8) =~= le_bytes_of(m as nat, 8));
    }
}

impl RoundTrip for u128 {
    open spec fn spec_encode(m: u128) -> Seq<u8> {
        le_bytes_of(m as nat, 16)
    }

    open spec fn encodable(m: u128) -> bool {
        true
    }

    proof fn lemma_round_trip(m: u128, rest: Seq<u8>) {
        reveal_with_fuel(pow256, 17);
        lemma_le_bytes_of_len(m as nat, 16);
        lemma_le_round_trip(m as nat, 16);
        assert((le_bytes_of(m as nat, 16) + rest).take(16) =~= le_bytes_of(m as nat, 16));
    }
}

impl RoundTrip for i8 {
    open spec fn spec_encode(m: i8) -> Seq<u8> {
        le_bytes_of(unsigned_of(m as int, 1), 1)
    }

    open spec fn encodable(m: i8) -> bool {
        true
    }

    proof fn lemma_round_trip(m: i8, rest: Seq<u8>) {
        reveal_with_fuel(pow256, 2);
        let u = unsigned_of(m as int, 1);
        lemma_le_bytes_of_len(u, 1);
        lemma_le_round_trip(u, 1);
        assert((le_bytes_of(u, 1) + rest).take(1) =~= le_bytes_of(u, 1));
    }
}

impl RoundTrip for i16 {
    open spec fn spec_encode(m: i16) -> Seq<u8> {
        le_bytes_of(unsigned_of(m as int, 2), 2)
    }

    open spec fn encodable(m: i16) -> bool {
        true
    }

    proof fn lemma_round_trip(m: i16, rest: Seq<u8>) {
        reveal_with_fuel(pow256, 3);
        let u = unsigned_of(m as int, 2);
        lemma_le_bytes_of_len(u, 2);
        lemma_le_round_trip(u, 2);
        assert((le_bytes_of(u, 2) + rest).take(2) =~= le_bytes_of(u, 2));
    }
}

impl RoundTrip for i32 {
    open spec fn spec_encode(m: i32) -> Seq<u8> {
        le_bytes_of(unsigned_of(m as int, 4), 4)
    }

    open spec fn encodable(m: i32) -> bool {
        true
    }

    proof fn lemma_round_trip(m: i32, rest: Seq<u8>) {
        reveal_with_fuel(pow256, 5);
        let u = unsigned_of(m as int, 4);
        lemma_le_bytes_of_len(u, 4);
        lemma_le_round_trip(u, 4);
        assert((le_bytes_of(u, 4) + rest).take(4) =~= le_bytes_of(u, 4));
    }
}

impl RoundTrip for i64 {
    open spec fn spec_encode(m: i64) -> Seq<u8> {
        le_bytes_of(unsigned_of(m as int, 8), 8)
    }

    open spec fn encodable(m: i64) -> bool {
        true
    }

    proof fn lemma_round_trip(m: i64, rest: Seq<u8>) {
        reveal_with_fuel(pow256, 9);
        let u = unsigned_of(m as int, 8);
        lemma_le_bytes_of_len(u, 8);
        lemma_le_round_trip(u, 8);
        assert((le_bytes_of(u, 8) + rest).take(8) =~= le_bytes_of(u, 8));
    }
}

impl RoundTrip for i128 {
    open spec fn spec_encode(m: i128) -> Seq<u8> {
        le_bytes_of(unsigned_of(m as int, 16), 16)
    }

    open spec fn encodable(m: i128) -> bool {
        true
    }

    proof fn lemma_round_trip(m: i128, rest: Seq<u8>) {
        reveal_with_fuel(pow256, 17);
        let u = unsigned_of(m as int, 16);
        lemma_le_bytes_of_len(u, 16);
        lemma_le_round_trip(u, 16);
        assert((le_bytes_of(u, 16) + rest).take(16) =~= le_bytes_of(u, 16));
    }
}

impl RoundTrip for bool {
    open spec fn spec_encode(m: bool) -> Seq<u8> {
        if m {
            seq![1u8]
        } else {
            seq![0u8]
        }
    }

    open spec fn encodable(m: bool) -> bool {
        true
    }

    proof fn lemma_round_trip(m: bool, rest: Seq<u8>) {
        assert((Self::spec_encode(m) + rest)[0] == (if m {
            1u8
        } else {
            0u8
        }));
    }
}

impl RoundTrip for Float32 {
    open spec fn spec_encode(m: Float32) -> Seq<u8> {
        le_bytes_of(m.bits as nat, 4)
    }

    open spec fn encodable(m: Float32) -> bool {
        !is_nan32(m.bits)
    }

    proof fn lemma_round_trip(m: Float32, rest: Seq<u8>) {
        reveal_with_fuel(pow256, 5);
        lemma_le_bytes_of_len(m.bits as nat, 4);
        lemma_le_round_trip(m.bits as nat, 4);
        assert((le_bytes_of(m.bits as nat, 4) + rest).take(4) =~= le_bytes_of(m.bits as nat, 4));
        assert(Float32 { bits: m.bits } == m);
    }
}

impl RoundTrip for Float64 {
    open spec fn spec_encode(m: Float64) -> Seq<u8> {
        le_bytes_of(m.bits as nat, 8)
    }

    open spec fn encodable(m: Float64) -> bool {
        !is_nan64(m.bits)
    }

    proof fn lemma_round_trip(m: Float64, rest: Seq<u8>) {
        reveal_with_fuel(pow256, 9);
        lemma_le_bytes_of_len(m.bits as nat, 8);
        lemma_le_round_trip(m.bits as nat, 8);
        assert((le_bytes_of(m.bits as nat, 8) + rest).take(8) =~= le_bytes_of(m.bits as nat, 8));
        assert(Float64 { bits: m.bits } == m);
    }
}

impl<T: RoundTrip> RoundTrip for Option<T> {
    open spec fn spec_encode(m: Option<T::Model>) -> Seq<u8> {
        match m {
            None => seq![0u8],
            Some(x) => seq![1u8] + T::spec_encode(x),
        }
    }

    open spec fn encodable(m: Option<T::Model>) -> bool {
        match m {
            None => true,
            Some(x) => T::encodable(x),
        }
    }

    proof fn lemma_round_trip(m: Option<T::Model>, rest: Seq<u8>) {
        match m {
            None => {
                assert((seq![0u8] + rest)[0] == 0);
            },
            Some(x) => {
                let enc1 = T::spec_encode(x);
                let whole = (seq![1u8] + enc1) + rest;
                assert(whole[0] == 1);
                assert(whole.skip(1) =~= enc1 + rest);
                T::lemma_round_trip(x, rest);
            },
        }
    }
}

/// The bytes an encoder emits for a run of elements, in order.
pub open spec fn spec_encode_elems<T: RoundTrip>(ms: Seq<T::Model>) -> Seq<u8>
    decreases ms.len(),
{
    if ms.len() == 0 {
        Seq::empty()
    } else {
        T::spec_encode(ms[0]) + spec_encode_elems::<T>(ms.skip(1))
    }
}

/// Decoding an encoded run of elements yields exactly those elements and
/// consumes exactly the run.
pub proof fn lemma_elems_round_trip<T: RoundTrip>(ms: Seq<T::Model>, rest: Seq<u8>)
    requires
        forall|i: int| 0 <= i < ms.len() ==> T::encodable(#[trigger] ms[i]),
    ensures
        spec_deserialize_elems::<T>(spec_encode_elems::<T>(ms) + rest, ms.len()) == Ok::<
            (Seq<T::Model>, int),
            Error,
        >((ms, spec_encode_elems::<T>(ms).len() as int)),
    decreases ms.len(),
{
    if ms.len() == 0 {
        assert(spec_encode_elems::<T>(ms) + rest =~= rest);
        assert(ms =~= Seq::<T::Model>::empty());
    } else {
        let e0 = T::spec_encode(ms[0]);
        let etail = spec_encode_elems::<T>(ms.skip(1));
        let whole = spec_encode_elems::<T>(ms) + rest;
        assert(whole =~= e0 + (etail + rest));
        T::lemma_round_trip(ms[0], etail + rest);
        assert((e0 + (etail + rest)).skip(e0.len() as int) =~= etail + rest);
        assert forall|i: int| 0 <= i < ms.skip(1).len() implies T::encodable(
            #[trigger] ms.skip(1)[i],
        ) by {
            assert(ms.skip(1)[i] == ms[i + 1]);
        }
        lemma_elems_round_trip::<T>(ms.skip(1), rest);
        assert(seq![ms[0]] + ms.skip(1) =~= ms);
    }
}

impl<T: RoundTrip> RoundTrip for Vec<T> {
    open spec fn spec_encode(ms: Seq<T::Model>) -> Seq<u8> {
        le_bytes_of(ms.len(), 4) + spec_encode_elems::<T>(ms)
    }

    open spec fn encodable(ms: Seq<T::Model>) -> bool {
        ms.len() < pow256(4) && forall|i: int| 0 <= i < ms.len() ==> T::encodable(
            #[trigger] ms[i],
        )
    }

    proof fn lemma_round_trip(ms: Seq<T::Model>, rest: Seq<u8>) {
        reveal_with_fuel(pow256, 5);
        let le4 = le_bytes_of(ms.len(), 4);
        let body = spec_encode_elems::<T>(ms);
        lemma_le_bytes_of_len(ms.len(), 4);
        lemma_le_round_trip(ms.len(), 4);
        let whole = (le4 + body) + rest;
        assert(whole.take(4) =~= le4);
        assert(whole.skip(4) =~= body + rest);
        lemma_elems_round_trip::<T>(ms, rest);
    }
}

impl<T: RoundTrip, const N: usize> RoundTrip for [T; N] {
    open spec fn spec_encode(ms: Seq<T::Model>) -> Seq<u8> {
        spec_encode_elems::<T>(ms)
    }

    open spec fn encodable(ms: Seq<T::Model>) -> bool {
        ms.len() == N && forall|i: int| 0 <= i < ms.len() ==> T::encodable(#[trigger] ms[i])
    }

    proof fn lemma_round_trip(ms: Seq<T::Model>, rest: Seq<u8>) {
        lemma_elems_round_trip::<T>(ms, rest);
    }
}

impl<T0: RoundTrip, T1: RoundTrip> RoundTrip for (T0, T1) {
    open spec fn spec_encode(m: (T0::Model, T1::Model)) -> Seq<u8> {
        T0::spec_encode(m.0) + T1::spec_encode(m.1)
    }

    open spec fn encodable(m: (T0::Model, T1::Model)) -> bool {
        T0::encodable(m.0) && T1::encodable(m.1)
    }

    proof fn lemma_round_trip(m: (T0::Model, T1::Model), rest: Seq<u8>) {
        let e0 = T0::spec_encode(m.0);
        let e1 = T1::spec_encode(m.1);
        let whole = (e0 + e1) + rest;
        assert(whole =~= e0 + (e1 + rest));
        T0::lemma_round_trip(m.0, e1 + rest);
        assert((e0 + (e1 + rest)).skip(e0.len() as int) =~= e1 + rest);
        T1::lemma_round_trip(m.1, rest);
    }
}

impl<T0: RoundTrip, T1: RoundTrip, T2: RoundTrip> RoundTrip for (T0, T1, T2) {
    open spec fn spec_encode(m: (T0::Model, T1::Model, T2::Model)) -> Seq<u8> {
        T0::spec_encode(m.0) + T1::spec_encode(m.1) + T2::spec_encode(m.2)
    }

    open spec fn encodable(m: (T0::Model, T1::Model, T2::Model)) -> bool {
        T0::encodable(m.0) && T1::encodable(m.1) && T2::encodable(m.2)
    }

    proof fn lemma_round_trip(m: (T0::Model, T1::Model, T2::Model), rest: Seq<u8>) {
        let e0 = T0::spec_encode(m.0);
        let e1 = T1::spec_encode(m.1);
        let e2 = T2::spec_encode(m.2);
        let whole = ((e0 + e1) + e2) + rest;
        assert(whole =~= e0 + ((e1 + (e2 + rest))));
        T0::lemma_round_trip(m.0, e1 + (e2 + rest));
        assert((e0 + (e1 + (e2 + rest))).skip(e0.len() as int) =~= e1 + (e2 + rest));
        T1::lemma_round_trip(m.1, e2 + rest);
        assert((e1 + (e2 + rest)).skip(e1.len() as int) =~= e2 + rest);
        T2::lemma_round_trip(m.2, rest);
        assert(whole.skip(e0.len() + e1.len() as int) =~= e2 + rest);
    }
}

impl<T0: RoundTrip, T1: RoundTrip, T2: RoundTrip, T3: RoundTrip> RoundTrip for (T0, T1, T2, T3) {
    open spec fn spec_encode(m: (T0::Model, T1::Model, T2::Model, T3::Model)) -> Seq<u8> {
        <(T0, T1, T2) as RoundTrip>::spec_encode((m.0, m.1, m.2)) + T3::spec_encode(m.3)
    }

    open spec fn encodable(m: (T0::Model, T1::Model, T2::Model, T3::Model)) -> bool {
        <(T0, T1, T2) as RoundTrip>::encodable((m.0, m.1, m.2)) && T3::encodable(m.3)
    }

    proof fn lemma_round_trip(m: (T0::Model, T1::Model, T2::Model, T3::Model), rest: Seq<u8>) {
        let eh = <(T0, T1, T2) as RoundTrip>::spec_encode((m.0, m.1, m.2));
        let e3 = T3::spec_encode(m.3);
        let whole = (eh + e3) + rest;
        assert(whole =~= eh + (e3 + rest));
        <(T0, T1, T2) as RoundTrip>::lemma_round_trip((m.0, m.1, m.2), e3 + rest);
        assert((eh + (e3 + rest)).skip(eh.len() as int) =~= e3 + rest);
        T3::lemma_round_trip(m.3, rest);
    }
}

impl RoundTrip for ByteBuf {
    open spec fn spec_encode(m: Seq<u8>) -> Seq<u8> {
        le_bytes_of(m.len(), 4) + m
    }

    open spec fn encodable(m: Seq<u8>) -> bool {
        m.len() < pow256(4)
    }

    proof fn lemma_round_trip(m: Seq<u8>, rest: Seq<u8>) {
        reveal_with_fuel(pow256, 5);
        let le4 = le_bytes_of(m.len(), 4);
        lemma_le_bytes_of_len(m.len(), 4);
        lemma_le_round_trip(m.len(), 4);
        let whole = (le4 + m) + rest;
        assert(whole.take(4) =~= le4);
        assert(whole.skip(4).take(m.len() as int) =~= m);
    }
}

impl RoundTrip for Ipv4Addr {
    open spec fn spec_encode(m: Seq<u8>) -> Seq<u8> {
        m
    }

    open spec fn encodable(m: Seq<u8>) -> bool {
        m.len() == 4
    }

    proof fn lemma_round_trip(m: Seq<u8>, rest: Seq<u8>) {
        assert((m + rest).take(4) =~= m);
    }
}

impl RoundTrip for Ipv6Addr {
    open spec fn spec_encode(m: Seq<u8>) -> Seq<u8> {
        m
    }

    open spec fn encodable(m: Seq<u8>) -> bool {
        m.len() == 16
    }

    proof fn lemma_round_trip(m: Seq<u8>, rest: Seq<u8>) {
        assert((m + rest).take(16) =~= m);
    }
}

impl RoundTrip for SocketAddrV4 {
    open spec fn spec_encode(m: (Seq<u8>, u16)) -> Seq<u8> {
        m.0 + le_bytes_of(m.1 as nat, 2)
    }

    open spec fn encodable(m: (Seq<u8>, u16)) -> bool {
        m.0.len() == 4
    }

    proof fn lemma_round_trip(m: (Seq<u8>, u16), rest: Seq<u8>) {
        reveal_with_fuel(pow256, 3);
        let le2 = le_bytes_of(m.1 as nat, 2);
        lemma_le_bytes_of_len(m.1 as nat, 2);
        lemma_le_round_trip(m.1 as nat, 2);
        let whole = (m.0 + le2) + rest;
        assert(whole.take(4) =~= m.0);
        assert(whole.skip(4) =~= le2 + rest);
        assert((le2 + rest).take(2) =~= le2);
    }
}

impl RoundTrip for SocketAddrV6 {
    open spec fn spec_encode(m: (Seq<u8>, u16)) -> Seq<u8> {
        m.0 + le_bytes_of(m.1 as nat, 2)
    }

    open spec fn encodable(m: (Seq<u8>, u16)) -> bool {
        m.0.len() == 16
    }

    proof fn lemma_round_trip(m: (Seq<u8>, u16), rest: Seq<u8>) {
        reveal_with_fuel(pow256, 3);
        let le2 = le_bytes_of(m.1 as nat, 2);
        lemma_le_bytes_of_len(m.1 as nat, 2);
        lemma_le_round_trip(m.1 as nat, 2);
        let whole = (m.0 + le2) + rest;
        assert(whole.take(16) =~= m.0);
        assert(whole.skip(16) =~= le2 + rest);
        assert((le2 + rest).take(2) =~= le2);
    }
}

impl RoundTrip for SocketAddr {
    open spec fn spec_encode(m: SocketAddrModel) -> Seq<u8> {
        match m {
            SocketAddrModel::V4 { octets, port } => seq![0u8] + SocketAddrV4::spec_encode(
                (octets, port),
            ),
            SocketAddrModel::V6 { octets, port } => seq![1u8] + SocketAddrV6::spec_encode(
                (octets, port),
            ),
        }
    }

    open spec fn encodable(m: SocketAddrModel) -> bool {
        match m {
            SocketAddrModel::V4 { octets, port } => octets.len() == 4,
            SocketAddrModel::V6 { octets, port } => octets.len() == 16,
        }
    }

    proof fn lemma_round_trip(m: SocketAddrModel, rest: Seq<u8>) {
        match m {
            SocketAddrModel::V4 { octets, port } => {
                let e = SocketAddrV4::spec_encode((octets, port));
                let whole = (seq![0u8] + e) + rest;
                assert(whole[0] == 0);
                assert(whole.skip(1) =~= e + rest);
                SocketAddrV4::lemma_round_trip((octets, port), rest);
            },
            SocketAddrModel::V6 { octets, port } => {
                let e = SocketAddrV6::spec_encode((octets, port));
                let whole = (seq![1u8] + e) + rest;
                assert(whole[0] == 1);
                assert(whole.skip(1) =~= e + rest);
                SocketAddrV6::lemma_round_trip((octets, port), rest);
            },
        }
    }
}

} // verus!
