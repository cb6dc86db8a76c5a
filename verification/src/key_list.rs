use vstd::prelude::*;
use std::collections::BTreeMap;
use std::collections::HashMap;
use vstd::std_specs::cmp::OrdSpec;
use vstd::std_specs::iter::IteratorSpec;

verus! {

broadcast use {
    vstd::std_specs::btree::group_btree_axioms,
    vstd::std_specs::hash::group_hash_axioms,
    vstd::laws_cmp::group_laws_cmp,
};

/// The keys of `m`, each once.
pub(crate) fn btree_keys<V>(m: &BTreeMap<u16, V>) -> (r: Vec<u16>)
    ensures
        r@.to_set() == m@.dom(),
        r@.no_duplicates(),
        forall|i: int, j: int| 0 <= i < j < r@.len() ==> r@[i] < r@[j],
{
    proof {
        let rem = vstd::std_specs::btree::spec_keys_iter(m).remaining();
        assert(vstd::laws_cmp::obeys_cmp::<u16>());
        assert(vstd::laws_cmp::obeys_cmp::<&u16>());
        vstd::std_specs::btree::axiom_increasing_seq_meaning(rem);
        assert(vstd::std_specs::btree::increasing_seq(rem));
        assert forall|i: int, j: int| 0 <= i < j < rem.len() implies *rem[i] < *rem[j] by {
            assert(OrdSpec::cmp_spec(&rem[i], &rem[j]) is Less);
        }
    }
    let ghost all = vstd::std_specs::btree::spec_keys_iter(m).remaining().unref();
    let mut out: Vec<u16> = Vec::new();
    for k in it: m.keys()
        invariant
            it.seq().unref() == all,
            all.to_set() == m@.dom(),
            all.no_duplicates(),
            forall|i: int, j: int| 0 <= i < j < all.len() ==> all[i] < all[j],
            out@ == all.take(it.index()),
    {
        out.push(*k);
        assert(out@ =~= all.take(it.index() + 1));
    }
    assert(out@ =~= all);
    out
}

/// The keys of `m`, each once, in the order the map walks them.
pub(crate) fn hash_keys<V>(m: &HashMap<u16, V>) -> (r: Vec<u16>)
    ensures
        r@.to_set() == m@.dom(),
        r@.no_duplicates(),
{
    let ghost all = vstd::std_specs::hash::spec_keys_iter(m).remaining().unref();
    let mut out: Vec<u16> = Vec::new();
    for k in it: m.keys()
        invariant
            it.seq().unref() == all,
            all.to_set() == m@.dom(),
            all.no_duplicates(),
            out@ == all.take(it.index()),
    {
        out.push(*k);
        assert(out@ =~= all.take(it.index() + 1));
    }
    assert(out@ =~= all);
    out
}

} // verus!
