//! The keys of an ordered map, smallest first.

use std::collections::BTreeMap;
use vstd::prelude::*;
use vstd::std_specs::cmp::OrdSpec;
use vstd::std_specs::iter::IteratorSpec;

verus! {

broadcast use {
    vstd::std_specs::btree::group_btree_axioms,
    vstd::laws_cmp::group_laws_cmp,
};

/// Each element of `s` is smaller than every element after it.
pub open spec fn strictly_increasing(s: Seq<u64>) -> bool {
    forall|a: int, b: int| 0 <= a < b < s.len() ==> s[a] < s[b]
}

/// A sequence of keys that the ordered map yields in increasing order is
/// strictly increasing as numbers.
proof fn lemma_increasing_keys(keys: Seq<&u64>)
    requires
        vstd::std_specs::btree::increasing_seq(keys),
    ensures
        forall|a: int, b: int| 0 <= a < b < keys.len() ==> *keys[a] < *keys[b],
{
    assert(vstd::laws_cmp::obeys_cmp::<&u64>());
    vstd::std_specs::btree::axiom_increasing_seq_meaning(keys);
    assert forall|a: int, b: int| 0 <= a < b < keys.len() implies *keys[a] < *keys[b] by {
        assert(OrdSpec::cmp_spec(&keys[a], &keys[b]) is Less);
    }
}

/// The keys of `m`, in increasing order.
pub fn keys_ascending<V>(m: &BTreeMap<u64, V>) -> (ks: Vec<u64>)
    ensures
        ks@.to_set() == m@.dom(),
        ks@.no_duplicates(),
        strictly_increasing(ks@),
{
    let mut ks: Vec<u64> = Vec::new();
    let ghost keys = vstd::std_specs::btree::spec_keys_iter(m).remaining();
    for k in it: m.keys()
        invariant
            it.seq() == keys,
            ks@ == keys.take(it.index()).unref(),
    {
        ks.push(*k);
        assert(keys.take(it.index() + 1).unref() =~= keys.take(it.index()).unref().push(*k));
    }
    proof {
        assert(keys.take(keys.len() as int) =~= keys);
        lemma_increasing_keys(keys);
        assert forall|a: int, b: int| 0 <= a < b < ks@.len() implies ks@[a] < ks@[b] by {
            assert(ks@[a] == *keys[a]);
            assert(ks@[b] == *keys[b]);
        }
    }
    ks
}

} // verus!
