//! Ascending sequences of identifiers, and the order in which an ordered map is walked.

use crate::task::Task;
use std::collections::BTreeMap;
use vstd::prelude::*;
use vstd::std_specs::btree::increasing_seq;
use vstd::std_specs::cmp::OrdSpec;
use vstd::std_specs::iter::IteratorSpec;

verus! {

/// Each identifier is smaller than all that follow it.
pub open spec fn ascending(ids: Seq<u64>) -> bool {
    forall|i: int, j: int| 0 <= i < j < ids.len() ==> ids[i] < ids[j]
}

/// What the standard library calls an increasing sequence is, for identifiers, an ascending one.
proof fn lemma_increasing_is_ascending(ids: Seq<u64>)
    requires
        increasing_seq(ids),
    ensures
        ascending(ids),
{
    assert forall|i: int, j: int| 0 <= i < j < ids.len() implies ids[i] < ids[j] by {
        assert(ids[i].cmp_spec(&ids[j]) is Less);
    }
}

/// Walks the map once and returns its entries in ascending order of identifier.
pub(crate) fn entries(m: &BTreeMap<u64, Task>) -> (v: Vec<(u64, &Task)>)
    ensures
        forall|i: int, j: int| 0 <= i < j < v@.len() ==> v@[i].0 < v@[j].0,
        forall|i: int|
            0 <= i < v@.len() ==> m@.contains_key((#[trigger] v@[i]).0) && m@[v@[i].0]
                == *v@[i].1,
        forall|id: u64|
            m@.contains_key(id) ==> exists|i: int| 0 <= i < v@.len() && (#[trigger] v@[i]).0 == id,
{
    let mut v: Vec<(u64, &Task)> = Vec::new();
    let iter = m.iter();
    let ghost all = iter.remaining();
    let ghost ids = all.map_values(|kv: (&u64, &Task)| *kv.0);
    proof {
        lemma_increasing_is_ascending(ids);
    }
    for kv in it: iter
        invariant
            it.seq() == all,
            v@.len() == it.index(),
            forall|i: int|
                0 <= i < v@.len() ==> (#[trigger] v@[i]).0 == *all[i].0 && v@[i].1 == all[i].1,
    {
        v.push((*kv.0, kv.1));
    }
    proof {
        assert forall|i: int, j: int| 0 <= i < j < v@.len() implies v@[i].0 < v@[j].0 by {
            assert(ids[i] == v@[i].0);
            assert(ids[j] == v@[j].0);
        }
        assert forall|id: u64| m@.contains_key(id) implies exists|i: int|
            0 <= i < v@.len() && (#[trigger] v@[i]).0 == id by {
            assert(all.contains((&id, &m@[id])));
            let i = choose|i: int| 0 <= i < all.len() && all[i] == (&id, &m@[id]);
            assert(v@[i].0 == id);
        }
    }
    v
}

} // verus!
