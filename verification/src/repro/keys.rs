//! The keys of a reference model in ascending order.

use std::collections::BTreeMap;
use vstd::prelude::*;
use vstd::std_specs::cmp::OrdSpec;
use vstd::std_specs::iter::IteratorSpec;

verus! {

/// The number of keys of `model` that lie below `key`: the position of `key`
/// among the keys in ascending order.
pub open spec fn key_rank(model: Map<i32, i32>, key: i32) -> nat {
    model.dom().filter(|other: i32| other < key).len()
}

/// In a strictly increasing sequence of all the keys, each key stands at the
/// position given by its rank.
proof fn lemma_rank_of_position(keys: Seq<i32>, model: Map<i32, i32>, i: int)
    requires
        keys.to_set() == model.dom(),
        forall|a: int, b: int| 0 <= a < b < keys.len() ==> keys[a] < keys[b],
        0 <= i < keys.len(),
    ensures
        key_rank(model, keys[i]) == i,
{
    let below = model.dom().filter(|other: i32| other < keys[i]);
    let head = keys.take(i);
    assert(head.no_duplicates());
    head.unique_seq_to_set();
    assert forall|k: i32| below.contains(k) implies head.to_set().contains(k) by {
        assert(keys.to_set().contains(k));
        let j = choose|j: int| 0 <= j < keys.len() && keys[j] == k;
        if j >= i {
            if j > i {
                assert(keys[i] < keys[j]);
            }
        }
        assert(head[j] == k);
    }
    assert forall|k: i32| head.to_set().contains(k) implies below.contains(k) by {
        let j = choose|j: int| 0 <= j < head.len() && head[j] == k;
        assert(keys[j] == k);
        assert(keys.to_set().contains(k));
        assert(keys[j] < keys[i]);
    }
    assert(below =~= head.to_set());
}

/// A sequence of keys that a sorted map hands out is strictly ascending.
pub proof fn lemma_keys_ascend(keys: Seq<&i32>)
    requires
        vstd::std_specs::btree::increasing_seq(keys),
    ensures
        forall|a: int, b: int| 0 <= a < b < keys.len() ==> *keys[a] < *keys[b],
{
    vstd::std_specs::btree::axiom_increasing_seq_meaning(keys);
    assert forall|a: int, b: int| 0 <= a < b < keys.len() implies *keys[a] < *keys[b] by {
        assert(OrdSpec::cmp_spec(&keys[a], &keys[b]) is Less);
    }
}

/// The key at position `idx` among the keys of `model` in ascending order;
/// `None` where the model has no more than `idx` keys.
pub fn nth_key(model: &BTreeMap<i32, i32>, idx: usize) -> (key: Option<i32>)
    ensures
        match key {
            Some(k) => model@.contains_key(k) && key_rank(model@, k) == idx,
            None => model@.dom().len() <= idx,
        },
{
    let mut i: usize = 0;
    let keys = model.keys();
    proof {
        lemma_keys_ascend(keys.remaining());
    }
    for k in it: keys
        invariant
            i == it.index(),
            i <= idx,
            it.seq().unref().to_set() == model@.dom(),
            it.seq().len() == model@.dom().len(),
            forall|a: int, b: int| 0 <= a < b < it.seq().len() ==> *it.seq()[a] < *it.seq()[b],
    {
        if i == idx {
            proof {
                lemma_rank_of_position(it.seq().unref(), model@, it.index());
            }
            return Some(*k);
        }
        i = i + 1;
    }
    None
}

} // verus!
