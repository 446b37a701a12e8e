//! Listing sets of identifiers in ascending order.
use std::collections::BTreeSet;
use vstd::laws_cmp::obeys_cmp;
use vstd::prelude::*;
use vstd::std_specs::btree::{
    axiom_increasing_seq_meaning, group_btree_axioms, increasing_seq, spec_btree_keys_iter,
    spec_keys_iter,
};
use vstd::std_specs::cmp::OrdSpec;
use vstd::std_specs::iter::IteratorSpec;
use weak_map::StrongMap;

verus! {

/// `ids` lists exactly the members of `set`, each once, in ascending order.
pub open spec fn lists_ascending(ids: Seq<u32>, set: Set<u32>) -> bool {
    &&& forall|i: int, j: int| 0 <= i < j < ids.len() ==> ids[i] < ids[j]
    &&& forall|x: u32| ids.contains(x) <==> set.contains(x)
}

/// A set has one ascending listing only.
pub proof fn lemma_listing_unique(a: Seq<u32>, b: Seq<u32>, set: Set<u32>)
    requires
        lists_ascending(a, set),
        lists_ascending(b, set),
    ensures
        a == b,
    decreases a.len(),
{
    if a.len() == 0 {
        if b.len() > 0 {
            assert(b.contains(b[0]));
            assert(a.contains(b[0]));
        }
        assert(a =~= b);
    } else if b.len() == 0 {
        assert(a.contains(a[0]));
        assert(b.contains(a[0]));
    } else {
        let x = a.last();
        let y = b.last();
        assert(a.contains(x));
        assert(b.contains(y));
        assert(b.contains(x));
        assert(a.contains(y));
        let i = choose|i: int| 0 <= i < b.len() && b[i] == x;
        let j = choose|j: int| 0 <= j < a.len() && a[j] == y;
        assert(x == y);
        let rest = set.remove(x);
        assert forall|v: u32| a.drop_last().contains(v) <==> rest.contains(v) by {
            if a.drop_last().contains(v) {
                let k = choose|k: int| 0 <= k < a.drop_last().len() && a.drop_last()[k] == v;
                assert(a[k] == v);
                assert(a.contains(v));
            }
            if rest.contains(v) {
                assert(a.contains(v));
                let k = choose|k: int| 0 <= k < a.len() && a[k] == v;
                assert(a.drop_last()[k] == v);
            }
        }
        assert forall|v: u32| b.drop_last().contains(v) <==> rest.contains(v) by {
            if b.drop_last().contains(v) {
                let k = choose|k: int| 0 <= k < b.drop_last().len() && b.drop_last()[k] == v;
                assert(b[k] == v);
                assert(b.contains(v));
            }
            if rest.contains(v) {
                assert(b.contains(v));
                let k = choose|k: int| 0 <= k < b.len() && b[k] == v;
                assert(b.drop_last()[k] == v);
            }
        }
        lemma_listing_unique(a.drop_last(), b.drop_last(), rest);
        assert(a =~= a.drop_last().push(x));
        assert(b =~= b.drop_last().push(y));
    }
}

/// The members of `set`, in ascending order.
pub(crate) fn ascending(set: &BTreeSet<u32>) -> (ids: Vec<u32>)
    ensures
        lists_ascending(ids@, set@),
{
    broadcast use group_btree_axioms;

    let mut ids: Vec<u32> = Vec::new();
    let ghost all = spec_btree_keys_iter(set).remaining();
    for id in it: set.iter()
        invariant
            it.seq() == all,
            ids@ == it.seq().take(it.index()).unref(),
    {
        ids.push(*id);
    }
    proof {
        assert(ids@ == all.unref());
        assert(all.unref().to_set() == set@);
        assert(obeys_cmp::<u32>());
        assert(obeys_cmp::<&u32>());
        assert(increasing_seq(all));
        axiom_increasing_seq_meaning::<&u32>(all);
        assert forall|i: int, j: int| 0 <= i < j < ids@.len() implies ids@[i] < ids@[j] by {
            assert(OrdSpec::cmp_spec(&all[i], &all[j]) is Less);
        }
        assert forall|x: u32| ids@.contains(x) <==> set@.contains(x) by {
            assert(ids@.to_set().contains(x) <==> ids@.contains(x));
        }
    }
    ids
}

/// The keys of `map`, in ascending order.
pub(crate) fn ascending_keys<V>(map: &StrongMap<u32, V>) -> (ids: Vec<u32>)
    ensures
        lists_ascending(ids@, map@.dom()),
{
    broadcast use group_btree_axioms;

    let mut ids: Vec<u32> = Vec::new();
    let ghost all = spec_keys_iter(map).remaining();
    for id in it: map.keys()
        invariant
            it.seq() == all,
            ids@ == it.seq().take(it.index()).unref(),
    {
        ids.push(*id);
    }
    proof {
        assert(ids@ == all.unref());
        assert(all.unref().to_set() == map@.dom());
        assert(obeys_cmp::<u32>());
        assert(obeys_cmp::<&u32>());
        assert(increasing_seq(all));
        axiom_increasing_seq_meaning::<&u32>(all);
        assert forall|i: int, j: int| 0 <= i < j < ids@.len() implies ids@[i] < ids@[j] by {
            assert(OrdSpec::cmp_spec(&all[i], &all[j]) is Less);
        }
        assert forall|x: u32| ids@.contains(x) <==> map@.dom().contains(x) by {
            assert(ids@.to_set().contains(x) <==> ids@.contains(x));
        }
    }
    ids
}

} // verus!
