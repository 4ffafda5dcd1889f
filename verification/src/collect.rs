//! Distributing a flat list of result rows over two key dimensions.

use std::collections::HashMap;
use vstd::prelude::*;

verus! {

broadcast use vstd::std_specs::hash::group_hash_axioms;

/// Distribute `values` — one entry per `(key1, key2)` pair, `keys2`-major —
/// into a map of maps: the entry for `keys1[i]` maps `keys2[j]` to
/// `values[i * keys2.len() + j]`. With no second keys there are no values
/// and the result is empty.
pub fn map_of_maps<TV>(keys1: &Vec<u64>, keys2: &Vec<u64>, values: Vec<Vec<TV>>) -> (m: HashMap<
    u64,
    HashMap<u64, Vec<TV>>,
>)
    requires
        values@.len() == keys1@.len() * keys2@.len(),
        forall|a: int, b: int|
            0 <= a < b < keys1@.len() ==> #[trigger] keys1@[a] != #[trigger] keys1@[b],
        forall|a: int, b: int|
            0 <= a < b < keys2@.len() ==> #[trigger] keys2@[a] != #[trigger] keys2@[b],
    ensures
        keys2@.len() == 0 ==> m@ == Map::<u64, HashMap<u64, Vec<TV>>>::empty(),
        keys2@.len() > 0 ==> forall|i: int|
            0 <= i < keys1@.len() ==> m@.contains_key(#[trigger] keys1@[i]),
        forall|k: u64|
            #[trigger] m@.contains_key(k) ==> exists|i: int|
                0 <= i < keys1@.len() && keys1@[i] == k,
        forall|i: int, j: int|
            0 <= i < keys1@.len() && 0 <= j < keys2@.len() ==> {
                &&& (#[trigger] m@[keys1@[i]])@.contains_key(#[trigger] keys2@[j])
                &&& m@[keys1@[i]]@[keys2@[j]]@ == values@[i * keys2@.len() + j]@
            },
        forall|i: int, k: u64|
            #![trigger m@[keys1@[i]]@.contains_key(k)]
            0 <= i < keys1@.len() && m@.contains_key(keys1@[i]) && m@[keys1@[i]]@.contains_key(k)
                ==> exists|j: int| 0 <= j < keys2@.len() && keys2@[j] == k,
{
    if keys2.len() == 0 {
        let m: HashMap<u64, HashMap<u64, Vec<TV>>> = HashMap::new();
        return m;
    }
    let ghost all_values = values@;
    let ghost len2 = keys2@.len() as int;
    let mut values = values;
    let mut m: HashMap<u64, HashMap<u64, Vec<TV>>> = HashMap::new();
    let mut i: usize = 0;
    proof {
        vstd::arithmetic::mul::lemma_mul_is_commutative(keys1@.len() as int, len2);
    }
    while i < keys1.len()
        invariant
            i <= keys1@.len(),
            len2 == keys2@.len(),
            all_values.len() == keys1@.len() * len2,
            values@ == all_values.skip(i as int * len2),
            0 <= i as int * len2 <= all_values.len(),
            forall|a: int, b: int|
                0 <= a < b < keys1@.len() ==> #[trigger] keys1@[a] != #[trigger] keys1@[b],
            forall|a: int, b: int|
                0 <= a < b < keys2@.len() ==> #[trigger] keys2@[a] != #[trigger] keys2@[b],
            forall|p: int| 0 <= p < i ==> m@.contains_key(#[trigger] keys1@[p]),
            forall|k: u64|
                #[trigger] m@.contains_key(k) ==> exists|p: int| 0 <= p < i && keys1@[p] == k,
            forall|p: int, j: int|
                0 <= p < i && 0 <= j < len2 ==> {
                    &&& (#[trigger] m@[keys1@[p]])@.contains_key(#[trigger] keys2@[j])
                    &&& m@[keys1@[p]]@[keys2@[j]]@ == all_values[p * len2 + j]@
                },
            forall|p: int, k: u64|
                #![trigger m@[keys1@[p]]@.contains_key(k)]
                0 <= p < i && m@[keys1@[p]]@.contains_key(k) ==> exists|j: int|
                    0 <= j < len2 && keys2@[j] == k,
        decreases keys1@.len() - i,
    {
        let ghost m_before = m@;
        let mut inner: HashMap<u64, Vec<TV>> = HashMap::new();
        let mut j: usize = 0;
        proof {
            vstd::arithmetic::mul::lemma_mul_inequality(
                i as int + 1,
                keys1@.len() as int,
                len2,
            );
            vstd::arithmetic::mul::lemma_mul_is_distributive_add_other_way(
                len2,
                i as int,
                1,
            );
        }
        while j < keys2.len()
            invariant
                j <= len2,
                len2 == keys2@.len(),
                i < keys1@.len(),
                all_values.len() == keys1@.len() * len2,
                (i as int + 1) * len2 <= all_values.len(),
                (i as int + 1) * len2 == i as int * len2 + len2,
                values@ == all_values.skip(i as int * len2 + j),
                0 <= i as int * len2 + j <= all_values.len(),
                forall|a: int, b: int|
                    0 <= a < b < keys2@.len() ==> #[trigger] keys2@[a] != #[trigger] keys2@[b],
                forall|q: int| 0 <= q < j ==> inner@.contains_key(#[trigger] keys2@[q]),
                forall|k: u64|
                    #[trigger] inner@.contains_key(k) ==> exists|q: int|
                        0 <= q < j && keys2@[q] == k,
                forall|q: int|
                    0 <= q < j ==> (#[trigger] inner@[keys2@[q]])@ == all_values[i as int * len2
                        + q]@,
            decreases len2 - j,
        {
            let ghost inner_before = inner@;
            let v = values.remove(0);
            proof {
                assert(v@ == all_values[i as int * len2 + j]@);
                assert(values@ =~= all_values.skip(i as int * len2 + j + 1));
            }
            inner.insert(keys2[j], v);
            proof {
                assert forall|q: int| 0 <= q < j + 1 implies inner@.contains_key(
                    #[trigger] keys2@[q],
                ) && (inner@[keys2@[q]])@ == all_values[i as int * len2 + q]@ by {
                    if q < j {
                        assert(keys2@[q] != keys2@[j as int]);
                        assert(inner@[keys2@[q]] == inner_before[keys2@[q]]);
                    }
                }
            }
            j = j + 1;
        }
        m.insert(keys1[i], inner);
        proof {
            assert forall|p: int, jx: int| 0 <= p < i + 1 && 0 <= jx < len2 implies (
            #[trigger] m@[keys1@[p]])@.contains_key(#[trigger] keys2@[jx]) && m@[keys1@[p]]@[
                keys2@[jx]
            ]@ == all_values[p * len2 + jx]@ by {
                if p < i {
                    assert(keys1@[p] != keys1@[i as int]);
                    assert(m@[keys1@[p]] == m_before[keys1@[p]]);
                }
            }
        }
        i = i + 1;
    }
    m
}

} // verus!
