//! What stays when a heap grows.

use crate::heap::{HeapModel, allocation_balances, fresh};
use crate::heap_data::{HeapData, child_ids};
use crate::heap_model::{Entries, data_at, live, outside, shrunk, sound};
use crate::heap_ops::{all_live, bumped, lemma_bumped, lemma_bumped_nothing, lemma_tally_bound, slot_bumped};
use crate::resource::ResourceTracker;
use crate::value::{HeapId, Value, holds1, lemma_holds_one, lemma_refs_push, refs, tally};
use vstd::prelude::*;

verus! {

/// Is every entry that was there still there, with the same payload and a count
/// that is no lower?
pub open spec fn grown(a: Entries, b: Entries) -> bool {
    forall|id: HeapId| #[trigger]
        live(a, id) ==> {
            &&& live(b, id)
            &&& b[id.0 as int]->0.data == a[id.0 as int]->0.data
            &&& b[id.0 as int]->0.hash_state == a[id.0 as int]->0.hash_state
            &&& b[id.0 as int]->0.refcount >= a[id.0 as int]->0.refcount
        }
}

pub proof fn lemma_bumped_grown(a: Entries, b: Entries, ids: Seq<HeapId>)
    requires
        bumped(a, b, ids),
    ensures
        grown(a, b),
{
    assert forall|id: HeapId| #[trigger] live(a, id) implies {
        &&& live(b, id)
        &&& b[id.0 as int]->0.data == a[id.0 as int]->0.data
        &&& b[id.0 as int]->0.hash_state == a[id.0 as int]->0.hash_state
        &&& b[id.0 as int]->0.refcount >= a[id.0 as int]->0.refcount
    } by {
        assert(slot_bumped(a[id.0 as int], b[id.0 as int], tally(ids, HeapId(id.0 as usize))));
    }
}

/// Counting one more reference keeps the heap in order.
pub proof fn lemma_clone_step<T: ResourceTracker>(a: HeapModel<T>, b: HeapModel<T>, v: Value, n: nat)
    requires
        a.wf(),
        sound(a.entries),
        a.room(n),
        n > 0,
        v matches Value::Ref(id) ==> live(a.entries, id),
        if v is Ref {
            bumped(a.entries, b.entries, refs(seq![v])) && b == a.with_entries(b.entries)
        } else {
            b == a || (bumped(a.entries, b.entries, refs(seq![v])) && b == a.with_entries(b.entries))
        },
    ensures
        bumped(a.entries, b.entries, refs(seq![v])),
        sound(b.entries),
        b.room((n - 1) as nat),
        grown(a.entries, b.entries),
        forall|x: HeapId| #[trigger] outside(b.entries, x) == outside(a.entries, x) + holds1(v, x),
{
    assert(seq![v] =~= Seq::<Value>::empty().push(v));
    lemma_refs_push(Seq::empty(), v);
    if b == a {
        lemma_bumped_nothing(a.entries);
        assert(v is Ref || refs(seq![v]) =~= Seq::empty());
    }
    let ids = refs(seq![v]);
    assert(all_live(a.entries, ids));
    lemma_bumped(a.entries, b.entries, ids);
    lemma_bumped_grown(a.entries, b.entries, ids);
    assert forall|x: HeapId| #[trigger] outside(b.entries, x) == outside(a.entries, x) + holds1(v, x) by {
        lemma_holds_one(v, x);
        assert(outside(b.entries, x) == outside(a.entries, x) + tally(ids, x));
    }
    assert forall|i: int| 0 <= i < b.entries.len() implies (#[trigger] b.entries[i] matches Some(w) ==> w.refcount
        + (n - 1) <= usize::MAX) by {
        assert(slot_bumped(a.entries[i], b.entries[i], tally(ids, HeapId(i as usize))));
        lemma_tally_bound(ids, HeapId(i as usize));
        assert(ids.len() <= 1);
        assert(a.entries[i] matches Some(w) ==> w.refcount + n <= usize::MAX);
    }
}

/// Allocating a payload leaves the other entries as they are.
pub proof fn lemma_allocate_step<T: ResourceTracker>(a: HeapModel<T>, b: HeapModel<T>, data: HeapData, id: HeapId, n: nat)
    requires
        a.wf(),
        a.room(n),
        0 < n <= usize::MAX,
        a.entries.len() < usize::MAX,
        a.allocates(b, data, Ok(id)),
    ensures
        live(b.entries, id),
        !live(a.entries, id),
        data_at(b.entries, id) == data,
        b.room((n - 1) as nat),
        b.entries.len() <= a.entries.len() + 1,
        b.recursion_depth == a.recursion_depth,
        grown(a.entries, b.entries),
        forall|x: HeapId|
            #[trigger] outside(b.entries, x) == outside(a.entries, x) - tally(child_ids(data), x) + holds1(
                Value::Ref(id),
                x,
            ),
{
    allocation_balances(a, data, b.tracker);
    assert forall|x: HeapId| #[trigger] live(a.entries, x) implies {
        &&& live(b.entries, x)
        &&& b.entries[x.0 as int]->0.data == a.entries[x.0 as int]->0.data
        &&& b.entries[x.0 as int]->0.hash_state == a.entries[x.0 as int]->0.hash_state
        &&& b.entries[x.0 as int]->0.refcount >= a.entries[x.0 as int]->0.refcount
    } by {
        assert(x != id);
        assert(live(b.entries, x) == live(a.entries, x));
        assert(b.entries[x.0 as int] == a.entries[x.0 as int]);
    }
    assert forall|i: int| 0 <= i < b.entries.len() implies (#[trigger] b.entries[i] matches Some(w) ==> w.refcount
        + (n - 1) <= usize::MAX) by {
        if i != id.0 as int {
            assert(b.entries[i] == a.entries[i]);
            assert(a.entries[i] matches Some(w) ==> w.refcount + n <= usize::MAX);
        } else {
            assert(b.entries[i] == Some(fresh(data)));
        }
    }
}

/// Fewer references fit where more do.
pub proof fn lemma_less_room<T: ResourceTracker>(m: HeapModel<T>, more: nat, less: nat)
    requires
        m.room(more),
        less <= more,
    ensures
        m.room(less),
{
    assert forall|i: int| 0 <= i < m.entries.len() implies (#[trigger] m.entries[i] matches Some(v) ==> v.refcount
        + less <= usize::MAX) by {
        assert(m.entries[i] matches Some(v) ==> v.refcount + more <= usize::MAX);
    }
}

/// Counting references uses up as much room.
pub proof fn lemma_bumped_room<T: ResourceTracker>(a: HeapModel<T>, b: HeapModel<T>, ids: Seq<HeapId>, n: nat)
    requires
        a.room(n),
        ids.len() <= n,
        bumped(a.entries, b.entries, ids),
    ensures
        b.room((n - ids.len()) as nat),
{
    assert forall|i: int| 0 <= i < b.entries.len() implies (#[trigger] b.entries[i] matches Some(w) ==> w.refcount + (n
        - ids.len()) <= usize::MAX) by {
        assert(slot_bumped(a.entries[i], b.entries[i], tally(ids, HeapId(i as usize))));
        lemma_tally_bound(ids, HeapId(i as usize));
        assert(a.entries[i] matches Some(w) ==> w.refcount + n <= usize::MAX);
    }
}

/// Giving up references leaves at least as much room.
pub proof fn lemma_gave_up_room<T: ResourceTracker>(a: HeapModel<T>, b: HeapModel<T>, ids: Seq<HeapId>, n: nat)
    requires
        a.room(n),
        a.gave_up(b, ids),
    ensures
        b.room(n),
{
    assert forall|i: int| 0 <= i < b.entries.len() implies (#[trigger] b.entries[i] matches Some(w) ==> w.refcount + n
        <= usize::MAX) by {
        assert(shrunk(a.entries[i], b.entries[i]));
        assert(a.entries[i] matches Some(w) ==> w.refcount + n <= usize::MAX);
    }
}

pub proof fn lemma_grown_trans(a: Entries, b: Entries, c: Entries)
    requires
        grown(a, b),
        grown(b, c),
    ensures
        grown(a, c),
{
    assert forall|id: HeapId| #[trigger] live(a, id) implies {
        &&& live(c, id)
        &&& c[id.0 as int]->0.data == a[id.0 as int]->0.data
        &&& c[id.0 as int]->0.hash_state == a[id.0 as int]->0.hash_state
        &&& c[id.0 as int]->0.refcount >= a[id.0 as int]->0.refcount
    } by {
        assert(live(b, id));
    }
}

} // verus!
