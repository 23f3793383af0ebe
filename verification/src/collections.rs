use vstd::prelude::*;

use core::hash::Hash;
use std::collections::BTreeMap;
use std::collections::HashMap;
use std::collections::HashSet;

use crate::composites::spec_deserialize_elems;
use crate::de::BorshDeserialize;
use crate::error::Error;
use crate::source::ByteSource;

verus! {

broadcast use vstd::std_specs::hash::group_hash_axioms;

/// The map folded from decoded pairs, first to last: a later pair with the
/// same key replaces the earlier value.
pub open spec fn fold_pairs<K, V>(pairs: Seq<(K, V)>) -> Map<K, V>
    decreases pairs.len(),
{
    if pairs.len() == 0 {
        Map::empty()
    } else {
        fold_pairs(pairs.drop_last()).insert(pairs.last().0, pairs.last().1)
    }
}

/// The set folded from decoded elements: order and multiplicity are lost.
pub open spec fn fold_set<T>(elems: Seq<T>) -> Set<T>
    decreases elems.len(),
{
    if elems.len() == 0 {
        Set::empty()
    } else {
        fold_set(elems.drop_last()).insert(elems.last())
    }
}

/// Decode a set: the same bytes as a sequence, folded into a hash set.
///
/// The contents are pinned down when the element type obeys vstd's hashing
/// model: the set is then exactly the fold of some decoded element sequence
/// whose models are what `spec_deserialize` names.
pub fn deserialize_hash_set<T: BorshDeserialize + Eq + Hash>(input: &mut ByteSource) -> (r: Result<
    HashSet<T>,
    Error,
>)
    ensures
        match <Vec<T> as BorshDeserialize>::spec_deserialize(old(input)@) {
            Ok(p) => {
                &&& r is Ok
                &&& 0 <= p.1 <= old(input)@.len()
                &&& final(input)@ == old(input)@.skip(p.1)
                &&& vstd::std_specs::hash::obeys_key_model::<T>() ==> exists|elems: Seq<T>|
                    elems.map_values(|t: T| t.model()) == p.0 && r->Ok_0@ == fold_set(elems)
            },
            Err(e) => r == Err::<HashSet<T>, Error>(e),
        },
{
    let mut elems = match <Vec<T> as BorshDeserialize>::deserialize(input) {
        Ok(v) => v,
        Err(e) => {
            return Err(e);
        },
    };
    let ghost orig = elems@;
    let mut result: HashSet<T> = HashSet::new();
    while elems.len() > 0
        invariant
            elems@.len() <= orig.len(),
            elems@ == orig.skip(orig.len() - elems@.len()),
            vstd::std_specs::hash::obeys_key_model::<T>() ==> result@ == fold_set(
                orig.take(orig.len() - elems@.len()),
            ),
        decreases elems@.len(),
    {
        let ghost done = orig.len() - elems@.len();
        let x = elems.remove(0);
        proof {
            assert(x == orig[done]);
            assert(elems@ =~= orig.skip(done + 1));
            assert(orig.take(done + 1).drop_last() =~= orig.take(done));
        }
        result.insert(x);
    }
    proof {
        assert(orig.take(orig.len() as int) =~= orig);
        if vstd::std_specs::hash::obeys_key_model::<T>() {
            let p = <Vec<T> as BorshDeserialize>::spec_deserialize(old(input)@)->Ok_0;
            assert(orig.map_values(|t: T| t.model()) == p.0 && result@ == fold_set(orig));
        }
    }
    Ok(result)
}

/// Decode a hash-keyed map: a 4-byte count, then that many key-value pairs.
///
/// The contents are pinned down when the key type obeys vstd's hashing
/// model: the map is then exactly the fold of some decoded pair sequence
/// whose models are what `spec_deserialize` names, a later pair replacing an
/// earlier one with the same key.
pub fn deserialize_hash_map<K: BorshDeserialize + Eq + Hash, V: BorshDeserialize>(
    input: &mut ByteSource,
) -> (r: Result<HashMap<K, V>, Error>)
    ensures
        match <Vec<(K, V)> as BorshDeserialize>::spec_deserialize(old(input)@) {
            Ok(p) => {
                &&& r is Ok
                &&& 0 <= p.1 <= old(input)@.len()
                &&& final(input)@ == old(input)@.skip(p.1)
                &&& vstd::std_specs::hash::obeys_key_model::<K>() ==> exists|pairs: Seq<(K, V)>|
                    pairs.map_values(|kv: (K, V)| kv.model()) == p.0 && r->Ok_0@ == fold_pairs(
                        pairs,
                    )
            },
            Err(e) => r == Err::<HashMap<K, V>, Error>(e),
        },
{
    let mut pairs = match <Vec<(K, V)> as BorshDeserialize>::deserialize(input) {
        Ok(v) => v,
        Err(e) => {
            return Err(e);
        },
    };
    let ghost orig = pairs@;
    let mut result: HashMap<K, V> = HashMap::new();
    while pairs.len() > 0
        invariant
            pairs@.len() <= orig.len(),
            pairs@ == orig.skip(orig.len() - pairs@.len()),
            vstd::std_specs::hash::obeys_key_model::<K>() ==> result@ == fold_pairs(
                orig.take(orig.len() - pairs@.len()),
            ),
        decreases pairs@.len(),
    {
        let ghost done = orig.len() - pairs@.len();
        let kv = pairs.remove(0);
        proof {
            assert(kv == orig[done]);
            assert(pairs@ =~= orig.skip(done + 1));
            assert(orig.take(done + 1).drop_last() =~= orig.take(done));
        }
        result.insert(kv.0, kv.1);
    }
    proof {
        assert(orig.take(orig.len() as int) =~= orig);
        if vstd::std_specs::hash::obeys_key_model::<K>() {
            let p = <Vec<(K, V)> as BorshDeserialize>::spec_deserialize(old(input)@)->Ok_0;
            assert(orig.map_values(|kv: (K, V)| kv.model()) == p.0 && result@ == fold_pairs(orig));
        }
    }
    Ok(result)
}

/// Decode an ordered map: the same wire shape as the hash-keyed map, folded
/// into a map ordered by key.
///
/// The contents are pinned down when the key's comparison obeys vstd's
/// model of `Ord`, which holds for the primitive integer keys.
pub fn deserialize_btree_map<K: BorshDeserialize + Ord, V: BorshDeserialize>(
    input: &mut ByteSource,
) -> (r: Result<BTreeMap<K, V>, Error>)
    ensures
        match <Vec<(K, V)> as BorshDeserialize>::spec_deserialize(old(input)@) {
            Ok(p) => {
                &&& r is Ok
                &&& 0 <= p.1 <= old(input)@.len()
                &&& final(input)@ == old(input)@.skip(p.1)
                &&& vstd::laws_cmp::obeys_cmp::<K>() ==> exists|pairs: Seq<(K, V)>|
                    pairs.map_values(|kv: (K, V)| kv.model()) == p.0 && r->Ok_0@ == fold_pairs(
                        pairs,
                    )
            },
            Err(e) => r == Err::<BTreeMap<K, V>, Error>(e),
        },
{
    let mut pairs = match <Vec<(K, V)> as BorshDeserialize>::deserialize(input) {
        Ok(v) => v,
        Err(e) => {
            return Err(e);
        },
    };
    let ghost orig = pairs@;
    let mut result: BTreeMap<K, V> = BTreeMap::new();
    while pairs.len() > 0
        invariant
            pairs@.len() <= orig.len(),
            pairs@ == orig.skip(orig.len() - pairs@.len()),
            vstd::laws_cmp::obeys_cmp::<K>() ==> result@ == fold_pairs(
                orig.take(orig.len() - pairs@.len()),
            ),
        decreases pairs@.len(),
    {
        let ghost done = orig.len() - pairs@.len();
        let kv = pairs.remove(0);
        proof {
            assert(kv == orig[done]);
            assert(pairs@ =~= orig.skip(done + 1));
            assert(orig.take(done + 1).drop_last() =~= orig.take(done));
        }
        result.insert(kv.0, kv.1);
    }
    proof {
        assert(orig.take(orig.len() as int) =~= orig);
        if vstd::laws_cmp::obeys_cmp::<K>() {
            let p = <Vec<(K, V)> as BorshDeserialize>::spec_deserialize(old(input)@)->Ok_0;
            assert(orig.map_values(|kv: (K, V)| kv.model()) == p.0 && result@ == fold_pairs(orig));
        }
    }
    Ok(result)
}

impl<T: BorshDeserialize + Eq + Hash> BorshDeserialize for HashSet<T> {
    type Model = ();

    open spec fn model(&self) -> () {
        ()
    }

    /// The wire shape of a sequence; the fold into a set is stated by
    /// `deserialize_hash_set`, whose contract pins the contents down.
    open spec fn spec_deserialize(bytes: Seq<u8>) -> Result<((), int), Error> {
        match <Vec<T> as BorshDeserialize>::spec_deserialize(bytes) {
            Ok(p) => Ok(((), p.1)),
            Err(e) => Err(e),
        }
    }

    fn deserialize(input: &mut ByteSource) -> (r: Result<HashSet<T>, Error>) {
        deserialize_hash_set(input)
    }
}

impl<K: BorshDeserialize + Eq + Hash, V: BorshDeserialize> BorshDeserialize for HashMap<K, V> {
    type Model = ();

    open spec fn model(&self) -> () {
        ()
    }

    /// The wire shape of a sequence of pairs; the fold into a map is stated
    /// by `deserialize_hash_map`, whose contract pins the contents down.
    open spec fn spec_deserialize(bytes: Seq<u8>) -> Result<((), int), Error> {
        match <Vec<(K, V)> as BorshDeserialize>::spec_deserialize(bytes) {
            Ok(p) => Ok(((), p.1)),
            Err(e) => Err(e),
        }
    }

    fn deserialize(input: &mut ByteSource) -> (r: Result<HashMap<K, V>, Error>) {
        deserialize_hash_map(input)
    }
}

impl<K: BorshDeserialize + Ord, V: BorshDeserialize> BorshDeserialize for BTreeMap<K, V> {
    type Model = ();

    open spec fn model(&self) -> () {
        ()
    }

    /// The wire shape of a sequence of pairs; the fold into a map is stated
    /// by `deserialize_btree_map`, whose contract pins the contents down.
    open spec fn spec_deserialize(bytes: Seq<u8>) -> Result<((), int), Error> {
        match <Vec<(K, V)> as BorshDeserialize>::spec_deserialize(bytes) {
            Ok(p) => Ok(((), p.1)),
            Err(e) => Err(e),
        }
    }

    fn deserialize(input: &mut ByteSource) -> (r: Result<BTreeMap<K, V>, Error>) {
        deserialize_btree_map(input)
    }
}

} // verus!
