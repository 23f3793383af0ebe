use vstd::prelude::*;

use crate::de::BorshDeserialize;
use crate::error::Error;
use crate::source::ByteSource;
use crate::wire::le_value;
use crate::wire::read_le;

verus! {

impl<T: BorshDeserialize> BorshDeserialize for Option<T> {
    type Model = Option<T::Model>;

    open spec fn model(&self) -> Option<T::Model> {
        match self {
            Option::None => None,
            Option::Some(v) => Some(v.model()),
        }
    }

    /// One flag byte: 0 is absent; any nonzero byte is followed by the payload.
    open spec fn spec_deserialize(bytes: Seq<u8>) -> Result<(Option<T::Model>, int), Error> {
        if bytes.len() < 1 {
            Err(Error::UnexpectedEof)
        } else if bytes[0] == 0 {
            Ok((None, 1))
        } else {
            match T::spec_deserialize(bytes.skip(1)) {
                Ok(p) => Ok((Some(p.0), p.1 + 1)),
                Err(e) => Err(e),
            }
        }
    }

    fn deserialize(input: &mut ByteSource) -> (r: Result<Option<T>, Error>) {
        let flag = match input.read_byte() {
            Ok(b) => b,
            Err(e) => {
                return Err(e);
            },
        };
        if flag == 0 {
            Ok(None)
        } else {
            match T::deserialize(input) {
                Ok(v) => {
                    proof {
                        let p = T::spec_deserialize(old(input)@.skip(1))->Ok_0;
                        assert(old(input)@.skip(1).skip(p.1) =~= old(input)@.skip(p.1 + 1));
                    }
                    Ok(Some(v))
                },
                Err(e) => Err(e),
            }
        }
    }
}

impl<T0: BorshDeserialize, T1: BorshDeserialize> BorshDeserialize for (T0, T1) {
    type Model = (T0::Model, T1::Model);

    open spec fn model(&self) -> (T0::Model, T1::Model) {
        (self.0.model(), self.1.model())
    }

    /// Components in order, no prefix, no padding; first failure aborts.
    open spec fn spec_deserialize(bytes: Seq<u8>) -> Result<((T0::Model, T1::Model), int), Error> {
        match T0::spec_deserialize(bytes) {
            Ok(p0) => match T1::spec_deserialize(bytes.skip(p0.1)) {
                Ok(p1) => Ok(((p0.0, p1.0), p0.1 + p1.1)),
                Err(e) => Err(e),
            },
            Err(e) => Err(e),
        }
    }

    fn deserialize(input: &mut ByteSource) -> (r: Result<(T0, T1), Error>) {
        let v0 = match T0::deserialize(input) {
            Ok(v) => v,
            Err(e) => {
                return Err(e);
            },
        };
        let v1 = match T1::deserialize(input) {
            Ok(v) => v,
            Err(e) => {
                return Err(e);
            },
        };
        proof {
            let p0 = T0::spec_deserialize(old(input)@)->Ok_0;
            let p1 = T1::spec_deserialize(old(input)@.skip(p0.1))->Ok_0;
            assert(old(input)@.skip(p0.1).skip(p1.1) =~= old(input)@.skip(p0.1 + p1.1));
        }
        Ok((v0, v1))
    }
}

impl<T0: BorshDeserialize, T1: BorshDeserialize, T2: BorshDeserialize> BorshDeserialize for (
    T0,
    T1,
    T2,
) {
    type Model = (T0::Model, T1::Model, T2::Model);

    open spec fn model(&self) -> (T0::Model, T1::Model, T2::Model) {
        (self.0.model(), self.1.model(), self.2.model())
    }

    /// Components in order, no prefix, no padding; first failure aborts.
    open spec fn spec_deserialize(bytes: Seq<u8>) -> Result<
        ((T0::Model, T1::Model, T2::Model), int),
        Error,
    > {
        match T0::spec_deserialize(bytes) {
            Ok(p0) => match T1::spec_deserialize(bytes.skip(p0.1)) {
                Ok(p1) => match T2::spec_deserialize(bytes.skip(p0.1 + p1.1)) {
                    Ok(p2) => Ok(((p0.0, p1.0, p2.0), p0.1 + p1.1 + p2.1)),
                    Err(e) => Err(e),
                },
                Err(e) => Err(e),
            },
            Err(e) => Err(e),
        }
    }

    fn deserialize(input: &mut ByteSource) -> (r: Result<(T0, T1, T2), Error>) {
        let v0 = match T0::deserialize(input) {
            Ok(v) => v,
            Err(e) => {
                return Err(e);
            },
        };
        let v1 = match T1::deserialize(input) {
            Ok(v) => v,
            Err(e) => {
                return Err(e);
            },
        };
        proof {
            let p0 = T0::spec_deserialize(old(input)@)->Ok_0;
            let p1 = T1::spec_deserialize(old(input)@.skip(p0.1))->Ok_0;
            assert(old(input)@.skip(p0.1).skip(p1.1) =~= old(input)@.skip(p0.1 + p1.1));
        }
        let v2 = match T2::deserialize(input) {
            Ok(v) => v,
            Err(e) => {
                return Err(e);
            },
        };
        proof {
            let p0 = T0::spec_deserialize(old(input)@)->Ok_0;
            let p1 = T1::spec_deserialize(old(input)@.skip(p0.1))->Ok_0;
            let p2 = T2::spec_deserialize(old(input)@.skip(p0.1 + p1.1))->Ok_0;
            assert(old(input)@.skip(p0.1 + p1.1).skip(p2.1) =~= old(input)@.skip(
                p0.1 + p1.1 + p2.1,
            ));
        }
        Ok((v0, v1, v2))
    }
}

impl<
    T0: BorshDeserialize,
    T1: BorshDeserialize,
    T2: BorshDeserialize,
    T3: BorshDeserialize,
> BorshDeserialize for (T0, T1, T2, T3) {
    type Model = (T0::Model, T1::Model, T2::Model, T3::Model);

    open spec fn model(&self) -> (T0::Model, T1::Model, T2::Model, T3::Model) {
        (self.0.model(), self.1.model(), self.2.model(), self.3.model())
    }

    /// Components in order, no prefix, no padding; first failure aborts.
    open spec fn spec_deserialize(bytes: Seq<u8>) -> Result<
        ((T0::Model, T1::Model, T2::Model, T3::Model), int),
        Error,
    > {
        match <(T0, T1, T2) as BorshDeserialize>::spec_deserialize(bytes) {
            Ok(p) => match T3::spec_deserialize(bytes.skip(p.1)) {
                Ok(p3) => Ok(((p.0.0, p.0.1, p.0.2, p3.0), p.1 + p3.1)),
                Err(e) => Err(e),
            },
            Err(e) => Err(e),
        }
    }

    fn deserialize(input: &mut ByteSource) -> (r: Result<(T0, T1, T2, T3), Error>) {
        let head = match <(T0, T1, T2) as BorshDeserialize>::deserialize(input) {
            Ok(v) => v,
            Err(e) => {
                return Err(e);
            },
        };
        let v3 = match T3::deserialize(input) {
            Ok(v) => v,
            Err(e) => {
                return Err(e);
            },
        };
        proof {
            let p = <(T0, T1, T2) as BorshDeserialize>::spec_deserialize(old(input)@)->Ok_0;
            let p3 = T3::spec_deserialize(old(input)@.skip(p.1))->Ok_0;
            assert(old(input)@.skip(p.1).skip(p3.1) =~= old(input)@.skip(p.1 + p3.1));
        }
        Ok((head.0, head.1, head.2, v3))
    }
}

/// Decoding `count` consecutive values of one element type: the models in
/// order and the total bytes consumed, or the first element's error.
pub open spec fn spec_deserialize_elems<T: BorshDeserialize>(
    bytes: Seq<u8>,
    count: nat,
) -> Result<(Seq<T::Model>, int), Error>
    decreases count,
{
    if count == 0 {
        Ok((Seq::empty(), 0))
    } else {
        match T::spec_deserialize(bytes) {
            Ok(p) => match spec_deserialize_elems::<T>(bytes.skip(p.1), (count - 1) as nat) {
                Ok(q) => Ok((seq![p.0] + q.0, p.1 + q.1)),
                Err(e) => Err(e),
            },
            Err(e) => Err(e),
        }
    }
}

impl<T: BorshDeserialize> BorshDeserialize for Vec<T> {
    type Model = Seq<T::Model>;

    open spec fn model(&self) -> Seq<T::Model> {
        self@.map_values(|t: T| t.model())
    }

    /// A 4-byte little-endian element count, then that many elements in
    /// order; the first element failure aborts the whole decode.
    open spec fn spec_deserialize(bytes: Seq<u8>) -> Result<(Seq<T::Model>, int), Error> {
        if bytes.len() < 4 {
            Err(Error::UnexpectedEof)
        } else {
            match spec_deserialize_elems::<T>(bytes.skip(4), le_value(bytes.take(4))) {
                Ok(q) => Ok((q.0, q.1 + 4)),
                Err(e) => Err(e),
            }
        }
    }

    fn deserialize(input: &mut ByteSource) -> (r: Result<Vec<T>, Error>) {
        let len128 = match read_le(input, 4) {
            Ok(v) => v,
            Err(e) => {
                return Err(e);
            },
        };
        proof {
            crate::wire::lemma_le_value_bound(old(input)@.take(4));
            reveal_with_fuel(crate::wire::pow256, 5);
        }
        let count = len128 as usize;
        let ghost start = input@;
        let ghost total_count = count as nat;
        let mut result: Vec<T> = Vec::new();
        let mut i: usize = 0;
        while i < count
            invariant
                i <= count,
                count as nat == total_count,
                old(input)@.len() >= 4,
                start == old(input)@.skip(4),
                total_count == le_value(old(input)@.take(4)),
                result@.len() == i,
                input@.len() <= start.len(),
                input@ == start.skip(start.len() - input@.len()),
                match spec_deserialize_elems::<T>(input@, (count - i) as nat) {
                    Ok(q) => spec_deserialize_elems::<T>(start, total_count) == Ok::<
                        (Seq<T::Model>, int),
                        Error,
                    >(
                        (
                            result@.map_values(|t: T| t.model()) + q.0,
                            (start.len() - input@.len()) + q.1,
                        ),
                    ),
                    Err(e) => spec_deserialize_elems::<T>(start, total_count) == Err::<
                        (Seq<T::Model>, int),
                        Error,
                    >(e),
                },
            decreases count - i,
        {
            let ghost cur = input@;
            let ghost consumed = start.len() - cur.len();
            match T::deserialize(input) {
                Ok(v) => {
                    proof {
                        let p = T::spec_deserialize(cur)->Ok_0;
                        assert(input@ == cur.skip(p.1));
                        assert(input@ =~= start.skip(consumed + p.1));
                        assert(result@.push(v).map_values(|t: T| t.model()) =~= result@.map_values(
                            |t: T| t.model(),
                        ).push(v.model()));
                        if spec_deserialize_elems::<T>(input@, (count - i - 1) as nat) is Ok {
                            let q2 = spec_deserialize_elems::<T>(input@, (count - i - 1) as nat)->Ok_0;
                            assert(spec_deserialize_elems::<T>(cur, (count - i) as nat) == Ok::<
                                (Seq<T::Model>, int),
                                Error,
                            >((seq![p.0] + q2.0, p.1 + q2.1)));
                            assert(result@.map_values(|t: T| t.model()) + (seq![p.0] + q2.0)
                                =~= result@.map_values(|t: T| t.model()).push(v.model()) + q2.0);
                        }
                    }
                    result.push(v);
                },
                Err(e) => {
                    proof {
                        assert(spec_deserialize_elems::<T>(cur, (count - i) as nat) == Err::<
                            (Seq<T::Model>, int),
                            Error,
                        >(e));
                        assert(spec_deserialize_elems::<T>(start, total_count) == Err::<
                            (Seq<T::Model>, int),
                            Error,
                        >(e));
                    }
                    return Err(e);
                },
            }
            i = i + 1;
        }
        proof {
            assert(spec_deserialize_elems::<T>(input@, 0) == Ok::<(Seq<T::Model>, int), Error>(
                (Seq::empty(), 0),
            ));
            let q = spec_deserialize_elems::<T>(start, total_count)->Ok_0;
            assert(result@.map_values(|t: T| t.model()) + Seq::<T::Model>::empty() =~= result@
                .map_values(|t: T| t.model()));
            assert(input@ =~= old(input)@.skip(4 + q.1));
        }
        Ok(result)
    }
}

/// Relies on Vec's TryInto conversion to an array of the same length: it
/// moves the elements across one for one.
#[verifier::external_body]
fn vec_to_array<T, const N: usize>(v: Vec<T>) -> (r: [T; N])
    requires
        v@.len() == N,
    ensures
        r@ == v@,
{
    v.try_into().ok().unwrap()
}

impl<T: BorshDeserialize, const N: usize> BorshDeserialize for [T; N] {
    type Model = Seq<T::Model>;

    open spec fn model(&self) -> Seq<T::Model> {
        self@.map_values(|t: T| t.model())
    }

    /// The length is part of the type, not the wire data: exactly `N`
    /// elements in order, with no prefix; first failure aborts.
    open spec fn spec_deserialize(bytes: Seq<u8>) -> Result<(Seq<T::Model>, int), Error> {
        spec_deserialize_elems::<T>(bytes, N as nat)
    }

    fn deserialize(input: &mut ByteSource) -> (r: Result<[T; N], Error>) {
        let ghost start = input@;
        let mut result: Vec<T> = Vec::new();
        let mut i: usize = 0;
        while i < N
            invariant
                i <= N,
                start == old(input)@,
                result@.len() == i,
                input@.len() <= start.len(),
                input@ == start.skip(start.len() - input@.len()),
                match spec_deserialize_elems::<T>(input@, (N - i) as nat) {
                    Ok(q) => spec_deserialize_elems::<T>(start, N as nat) == Ok::<
                        (Seq<T::Model>, int),
                        Error,
                    >(
                        (
                            result@.map_values(|t: T| t.model()) + q.0,
                            (start.len() - input@.len()) + q.1,
                        ),
                    ),
                    Err(e) => spec_deserialize_elems::<T>(start, N as nat) == Err::<
                        (Seq<T::Model>, int),
                        Error,
                    >(e),
                },
            decreases N - i,
        {
            let ghost cur = input@;
            let ghost consumed = start.len() - cur.len();
            match T::deserialize(input) {
                Ok(v) => {
                    proof {
                        let p = T::spec_deserialize(cur)->Ok_0;
                        assert(input@ == cur.skip(p.1));
                        assert(input@ =~= start.skip(consumed + p.1));
                        assert(result@.push(v).map_values(|t: T| t.model()) =~= result@.map_values(
                            |t: T| t.model(),
                        ).push(v.model()));
                        if spec_deserialize_elems::<T>(input@, (N - i - 1) as nat) is Ok {
                            let q2 = spec_deserialize_elems::<T>(input@, (N - i - 1) as nat)->Ok_0;
                            assert(spec_deserialize_elems::<T>(cur, (N - i) as nat) == Ok::<
                                (Seq<T::Model>, int),
                                Error,
                            >((seq![p.0] + q2.0, p.1 + q2.1)));
                            assert(result@.map_values(|t: T| t.model()) + (seq![p.0] + q2.0)
                                =~= result@.map_values(|t: T| t.model()).push(v.model()) + q2.0);
                        }
                    }
                    result.push(v);
                },
                Err(e) => {
                    proof {
                        assert(spec_deserialize_elems::<T>(cur, (N - i) as nat) == Err::<
                            (Seq<T::Model>, int),
                            Error,
                        >(e));
                    }
                    return Err(e);
                },
            }
            i = i + 1;
        }
        proof {
            assert(spec_deserialize_elems::<T>(input@, 0) == Ok::<(Seq<T::Model>, int), Error>(
                (Seq::empty(), 0),
            ));
            let q = spec_deserialize_elems::<T>(start, N as nat)->Ok_0;
            assert(result@.map_values(|t: T| t.model()) + Seq::<T::Model>::empty() =~= result@
                .map_values(|t: T| t.model()));
        }
        let arr = vec_to_array(result);
        proof {
            assert(arr@.map_values(|t: T| t.model()) == result@.map_values(|t: T| t.model()));
        }
        Ok(arr)
    }
}

} // verus!
