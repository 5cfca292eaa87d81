//! What one side holds down on the other, as a hash set, and the order in
//! which a release hands the held items out.

use std::collections::HashSet;

use vstd::prelude::*;
use vstd::std_specs::hash::{obeys_key_model, spec_hash_keys_iter};
use vstd::std_specs::iter::IteratorSpec;

verus! {

broadcast use vstd::std_specs::hash::group_hash_axioms;

/// `s` lists every element of `set` once, in some order.
pub open spec fn lists_once<T>(s: Seq<T>, set: Set<T>) -> bool {
    s.no_duplicates() && s.to_set() == set
}

/// The elements of a hash set, each once, in the order the set hands them
/// out (which depends on the set's random hash seed).
pub fn set_elements<T: Copy>(s: &HashSet<T>) -> (v: Vec<T>)
    requires
        obeys_key_model::<T>(),
    ensures
        lists_once(v@, s@),
{
    let mut v: Vec<T> = Vec::new();
    let ghost ks = IteratorSpec::remaining(&spec_hash_keys_iter(s));
    for k in it: s.iter()
        invariant
            it.seq() == ks,
            v@ == it.seq().take(it.index() as int).map_values(|r: &T| *r),
    {
        v.push(*k);
    }
    assert(ks.take(ks.len() as int) =~= ks);
    assert(v@ =~= ks.unref());
    v
}

}
