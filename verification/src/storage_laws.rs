//! What allocating, counting, lending and freeing do to the entries of a heap.

use crate::heap::{HeapModel, allocation_balances, deeper, live_count};
use crate::heap_data::{HeapData, child_ids};
use crate::heap_model::{
    Entries, data_at, freed_ids, freed_sizes, lemma_weight_update, live, one_less, readable, release, weight,
    work_after,
};
use crate::heap_ops::{bumped, slot_bumped};
use crate::measure::estimated_size;
use crate::payload_laws::{
    payloads_with_children_are_watched, tallies_count_occurrences, values_hold_their_references,
};
use crate::resource::{ResourceError, ResourceTracker};
use crate::value::{HeapId, Value, refs, tally};
use vstd::prelude::*;

verus! {

/// An allocation gives an id that led nowhere before. It then leads to the payload, counted
/// once. All other entries stay as they are, and the tracker is asked for the size of the
/// payload. Where it refuses, nothing happens.
pub proof fn allocations_add_one_entry<T: ResourceTracker>(
    before: HeapModel<T>,
    after: HeapModel<T>,
    data: HeapData,
    r: Result<HeapId, ResourceError>,
    other: HeapId,
)
    requires
        before.wf(),
        before.entries.len() < usize::MAX || before.free.len() > 0,
        before.allocates(after, data, r),
    ensures
        match r {
            Ok(id) => {
                &&& !live(before.entries, id)
                &&& live(after.entries, id)
                &&& data_at(after.entries, id) == data
                &&& after.entries[id.0 as int]->0.refcount == 1
                &&& other != id ==> live(after.entries, other) == live(before.entries, other)
                &&& live(before.entries, other) ==> after.entries[other.0 as int] == before.entries[other.0 as int]
                &&& before.tracker.allocate_outcome(estimated_size(data) as usize, after.tracker, Ok(()))
            },
            Err(e) => {
                &&& after.entries == before.entries
                &&& after.free == before.free
                &&& after.may_have_cycles == before.may_have_cycles
                &&& after.allocations_since_gc == before.allocations_since_gc
                &&& before.tracker.allocate_outcome(estimated_size(data) as usize, after.tracker, Err(e))
            },
        },
        after.recursion_depth == before.recursion_depth,
        after.wf(),
{
    allocation_balances(before, data, after.tracker);
}

/// A heap may hold cycles once an entry was allocated that refers to others, and counts the
/// allocations of what can be part of a cycle.
pub proof fn allocations_count_towards_collections<T: ResourceTracker>(
    before: HeapModel<T>,
    after: HeapModel<T>,
    data: HeapData,
    id: HeapId,
)
    requires
        before.allocates(after, data, Ok(id)),
        data matches HeapData::NamedTupleFactory(f) ==> f.wf(),
    ensures
        after.may_have_cycles <==> before.may_have_cycles || exists|x: HeapId| child_ids(data).contains(x),
        !data.spec_gc_tracked() ==> after.allocations_since_gc == before.allocations_since_gc,
        data.spec_gc_tracked() && before.allocations_since_gc < u32::MAX ==> after.allocations_since_gc
            == before.allocations_since_gc + 1,
{
    payloads_with_children_are_watched(data);
}

/// Counting some references raises the count of each entry by how often it is among them,
/// and changes nothing else.
pub proof fn counts_rise_by_occurrences(a: Entries, b: Entries, ids: Seq<HeapId>, x: HeapId)
    requires
        bumped(a, b, ids),
        a.len() <= usize::MAX,
    ensures
        live(b, x) == live(a, x),
        live(a, x) ==> b[x.0 as int]->0.refcount == a[x.0 as int]->0.refcount + ids.to_multiset().count(x),
        live(a, x) ==> b[x.0 as int]->0.data == a[x.0 as int]->0.data,
{
    tallies_count_occurrences(ids, x);
    if x.0 < a.len() {
        assert(slot_bumped(a[x.0 as int], b[x.0 as int], tally(ids, HeapId(x.0 as usize))));
        assert(HeapId(x.0 as usize) == x);
    }
}

/// While two payloads are lent out they are not there, and all else is. Put back, each is
/// where it came from.
pub proof fn payloads_go_back_where_they_came_from<T: ResourceTracker>(
    m: HeapModel<T>,
    left: HeapId,
    right: HeapId,
    l: HeapData,
    r: HeapData,
    other: HeapId,
)
    requires
        live(m.entries, left),
        live(m.entries, right),
        other != left,
        other != right,
        live(m.entries, other),
    ensures
        !readable(m.lent(left, right).entries, left),
        !readable(m.lent(left, right).entries, right),
        m.lent(left, right).entries[other.0 as int] == m.entries[other.0 as int],
        m.lent(left, right).entries[left.0 as int]->0.refcount == m.entries[left.0 as int]->0.refcount,
        m.lent(left, right).entries[right.0 as int]->0.refcount == m.entries[right.0 as int]->0.refcount,
        ({
            let back = m.put_back(left, right, l, r);
            &&& readable(back.entries, left) && data_at(back.entries, left) == l
            &&& left != right ==> readable(back.entries, right) && data_at(back.entries, right) == r
            &&& back.entries[other.0 as int] == m.entries[other.0 as int]
            &&& back.entries[left.0 as int]->0.refcount == m.entries[left.0 as int]->0.refcount
            &&& back.entries[right.0 as int]->0.refcount == m.entries[right.0 as int]->0.refcount
        }),
{
}

/// Are all payloads in place?
pub open spec fn nothing_lent(e: Entries) -> bool {
    forall|i: int| 0 <= i < e.len() ==> (#[trigger] e[i] matches Some(v) ==> v.data is Some)
}

/// Every entry that is freed is freed once. Its slot is put on the free list, and its size
/// is reported.
pub proof fn freed_payloads_are_reported(e: Entries, free: Seq<HeapId>, sizes: Seq<usize>, work: Seq<HeapId>)
    requires
        nothing_lent(e),
    ensures
        ({
            let r = release(e, free, sizes, work);
            let n = r.free.len() - free.len();
            &&& n >= 0
            &&& r.sizes.len() == sizes.len() + n
            &&& r.free.take(free.len() as int) == free
            &&& r.sizes.take(sizes.len() as int) == sizes
            &&& r.entries.len() == e.len()
            &&& forall|k: int|
                0 <= k < n ==> {
                    &&& live(e, #[trigger] r.free[free.len() + k])
                    &&& !live(r.entries, r.free[free.len() + k])
                    &&& r.sizes[sizes.len() + k] == estimated_size(data_at(e, r.free[free.len() + k])) as usize
                }
            &&& forall|x: HeapId| #[trigger] live(e, x) && !live(r.entries, x) ==> r.free.contains(x)
            &&& forall|x: HeapId| #[trigger] live(r.entries, x) ==> live(e, x)
        }),
    decreases weight(e),
{
    if work.len() > 0 && live(e, work.last()) {
        let id = work.last();
        let v = e[id.0 as int]->0;
        lemma_weight_update(e, id.0 as int, Some(one_less(v)));
        lemma_weight_update(e, id.0 as int, None);
        if v.refcount > 1 {
            let next = e.update(id.0 as int, Some(one_less(v)));
            assert(nothing_lent(next)) by {
                assert forall|i: int| 0 <= i < next.len() implies (#[trigger] next[i] matches Some(w) ==> w.data is Some) by {
                    assert(e[i] matches Some(w) ==> w.data is Some);
                }
            }
            freed_payloads_are_reported(next, free, sizes, work.drop_last());
            let r = release(e, free, sizes, work);
            assert forall|x: HeapId| #[trigger] live(e, x) == live(next, x) by {}
            assert forall|k: int| 0 <= k < r.free.len() - free.len() implies {
                &&& live(e, #[trigger] r.free[free.len() + k])
                &&& !live(r.entries, r.free[free.len() + k])
                &&& r.sizes[sizes.len() + k] == estimated_size(data_at(e, r.free[free.len() + k])) as usize
            } by {
                let x = r.free[free.len() + k];
                assert(live(next, x));
                assert(data_at(next, x) == data_at(e, x));
            }
        } else {
            let next = e.update(id.0 as int, None);
            let more = free.push(id);
            assert(e[id.0 as int] matches Some(w) && w.data is Some);
            let told = sizes.push(estimated_size(data_at(e, id)) as usize);
            assert(nothing_lent(next)) by {
                assert forall|i: int| 0 <= i < next.len() implies (#[trigger] next[i] matches Some(w) ==> w.data is Some) by {
                    assert(e[i] matches Some(w) ==> w.data is Some);
                }
            }
            freed_payloads_are_reported(next, more, told, work_after(work.drop_last(), v));
            let r = release(next, more, told, work_after(work.drop_last(), v));
            assert(r == release(e, free, sizes, work));
            assert(r.free.take(free.len() as int) =~= free) by {
                assert forall|k: int| 0 <= k < free.len() implies r.free[k] == free[k] by {
                    assert(r.free.take(more.len() as int)[k] == more[k]);
                }
            }
            assert(r.sizes.take(sizes.len() as int) =~= sizes) by {
                assert forall|k: int| 0 <= k < sizes.len() implies r.sizes[k] == sizes[k] by {
                    assert(r.sizes.take(told.len() as int)[k] == told[k]);
                }
            }
            assert(r.free[free.len() as int] == id) by {
                assert(r.free.take(more.len() as int)[free.len() as int] == more[free.len() as int]);
            }
            assert(r.sizes[sizes.len() as int] == told.last()) by {
                assert(r.sizes.take(told.len() as int)[sizes.len() as int] == told[sizes.len() as int]);
            }
            assert(!live(next, id));
            assert forall|k: int| 0 <= k < r.free.len() - free.len() implies {
                &&& live(e, #[trigger] r.free[free.len() + k])
                &&& !live(r.entries, r.free[free.len() + k])
                &&& r.sizes[sizes.len() + k] == estimated_size(data_at(e, r.free[free.len() + k])) as usize
            } by {
                if k == 0 {
                    if live(r.entries, id) {
                        assert(live(next, id));
                    }
                } else {
                    let x = r.free[more.len() + (k - 1)];
                    assert(free.len() + k == more.len() + (k - 1));
                    assert(live(next, x));
                    assert(x != id);
                }
            }
            assert forall|x: HeapId| #[trigger] live(e, x) && !live(r.entries, x) implies r.free.contains(x) by {
                if x == id {
                    assert(r.free[free.len() as int] == x);
                } else {
                    assert(live(next, x));
                }
            }
        }
    } else {
        let r = release(e, free, sizes, work);
        assert(r.free.take(free.len() as int) =~= free);
        assert(r.sizes.take(sizes.len() as int) =~= sizes);
    }
}

/// A sweep frees the entries that are not marked, each once and in order, and reports the
/// size of each.
pub proof fn swept_payloads_are_reported(e: Entries, marked: Seq<bool>, n: nat)
    requires
        nothing_lent(e),
        n <= e.len() <= usize::MAX,
        marked.len() == e.len(),
    ensures
        freed_sizes(e, marked, n).len() == freed_ids(e, marked, n).len(),
        forall|k: int|
            0 <= k < freed_ids(e, marked, n).len() ==> {
                let id = #[trigger] freed_ids(e, marked, n)[k];
                &&& id.0 < n
                &&& live(e, id)
                &&& !marked[id.0 as int]
                &&& freed_sizes(e, marked, n)[k] == estimated_size(data_at(e, id)) as usize
            },
        forall|a: int, b: int|
            0 <= a < b < freed_ids(e, marked, n).len() ==> (#[trigger] freed_ids(e, marked, n)[a]).0 < (
            #[trigger] freed_ids(e, marked, n)[b]).0,
        forall|x: HeapId| #[trigger]
            live(e, x) && x.0 < n && !marked[x.0 as int] ==> freed_ids(e, marked, n).contains(x),
    decreases n,
{
    if n > 0 {
        let m = (n - 1) as nat;
        swept_payloads_are_reported(e, marked, m);
        let rest = freed_ids(e, marked, m);
        let all = freed_ids(e, marked, n);
        let last = HeapId(m as usize);
        assert(e[n - 1] matches Some(v) ==> v.data is Some);
        if !marked[n - 1] && e[n - 1] is Some {
            assert(all == rest.push(last));
            assert forall|k: int| 0 <= k < all.len() implies {
                let id = #[trigger] all[k];
                &&& id.0 < n
                &&& live(e, id)
                &&& !marked[id.0 as int]
                &&& freed_sizes(e, marked, n)[k] == estimated_size(data_at(e, id)) as usize
            } by {
                if k < rest.len() {
                    assert(all[k] == rest[k]);
                    assert(rest[k].0 < m);
                }
            }
            assert forall|a: int, b: int| 0 <= a < b < all.len() implies (#[trigger] all[a]).0 < (#[trigger] all[b]).0 by {
                assert(all[a] == rest[a]);
                assert(rest[a].0 < m);
                if b < rest.len() {
                    assert(all[b] == rest[b]);
                }
            }
            assert forall|x: HeapId| #[trigger] live(e, x) && x.0 < n && !marked[x.0 as int] implies all.contains(x) by {
                if x.0 == m {
                    assert(x == last);
                    assert(all[rest.len() as int] == x);
                } else {
                    assert(rest.contains(x));
                    let k = rest.index_of(x);
                    assert(all[k] == x);
                }
            }
        } else {
            assert forall|x: HeapId| #[trigger] live(e, x) && x.0 < n && !marked[x.0 as int] implies all.contains(x) by {
                assert(x.0 < m);
            }
        }
    }
}

/// Each slot of a heap is free or holds an entry, and so the entries and the free slots are
/// as many as the slots together.
pub proof fn slots_are_free_or_taken<T: ResourceTracker>(m: HeapModel<T>)
    requires
        m.wf(),
    ensures
        live_count(m.entries) + m.free.len() == m.entries.len(),
{
    let taken = free_slots(m.entries);
    lemma_free_slots(m.entries);
    let listed = m.free.map_values(|id: HeapId| id.0 as int).to_set();
    let ids = m.free.map_values(|id: HeapId| id.0 as int);
    assert(ids.no_duplicates()) by {
        assert forall|a: int, b: int| 0 <= a < ids.len() && 0 <= b < ids.len() && a != b implies ids[a] != ids[b] by {
            assert(m.free[a] != m.free[b]);
        }
    }
    ids.unique_seq_to_set();
    assert(listed =~= taken) by {
        assert forall|i: int| #[trigger] listed.contains(i) == taken.contains(i) by {
            if listed.contains(i) {
                let k = choose|k: int| 0 <= k < ids.len() && ids[k] == i;
                assert(m.free[k].0 < m.entries.len());
            }
            if taken.contains(i) {
                assert(m.entries[i] is None);
                assert(m.free.contains(HeapId(i as usize)));
                let k = m.free.index_of(HeapId(i as usize));
                assert(ids[k] == i);
                assert(ids.contains(i));
            }
        }
    }
}

/// The numbers of the slots that hold nothing.
spec fn free_slots(e: Entries) -> Set<int> {
    Set::new(|i: int| 0 <= i < e.len() && e[i] is None)
}

proof fn lemma_free_slots(e: Entries)
    ensures
        free_slots(e).finite(),
        free_slots(e).len() + live_count(e) == e.len(),
    decreases e.len(),
{
    if e.len() == 0 {
        assert(free_slots(e) =~= Set::<int>::empty());
    } else {
        let head = e.drop_last();
        lemma_free_slots(head);
        let last = e.len() - 1;
        if e.last() is None {
            assert(free_slots(e) =~= free_slots(head).insert(last));
            assert(!free_slots(head).contains(last));
        } else {
            assert(free_slots(e) =~= free_slots(head));
        }
    }
}

/// One more level of nesting is allowed just where the tracker allows it and a `usize` can
/// count it. A refusal gives the tracker's reason.
pub proof fn nesting_is_limited_by_the_tracker<T: ResourceTracker>(tracker: T, depth: usize)
    ensures
        deeper(tracker, depth) is Ok <==> tracker.depth_outcome(depth) is Ok && depth < usize::MAX,
        tracker.depth_outcome(depth) matches Err(e) ==> deeper(tracker, depth) == Err::<(), ResourceError>(e),
        deeper(tracker, depth) matches Err(e) ==> tracker.depth_outcome(depth) == Err::<(), ResourceError>(e)
            || e is Recursion,
{
}

/// Extending by a list puts the items of the list behind those that are there, in order, and
/// counts each once more. It succeeds just where there is a list.
pub proof fn extending_adds_the_items_of_a_list<T: ResourceTracker>(
    before: HeapModel<T>,
    after: HeapModel<T>,
    id: HeapId,
    items: Seq<Value>,
    longer: Seq<Value>,
    r: bool,
    i: int,
    x: HeapId,
)
    requires
        before.entries.len() <= usize::MAX,
        before.extends(after, id, items, longer, r),
    ensures
        r <==> data_at(before.entries, id) is List,
        data_at(before.entries, id) matches HeapData::List(l) ==> {
            &&& longer.len() == items.len() + l.items@.len()
            &&& 0 <= i < items.len() ==> longer[i] == items[i]
            &&& 0 <= i < l.items@.len() ==> longer[items.len() + i] == l.items@[i]
            &&& live(before.entries, x) ==> after.entries[x.0 as int]->0.refcount == before.entries[x.0 as int]->0.refcount
                + l.items@.to_multiset().count(Value::Ref(x))
        },
        !r ==> longer == items && after == before,
{
    if let HeapData::List(l) = data_at(before.entries, id) {
        counts_rise_by_occurrences(before.entries, after.entries, refs(l.items@), x);
        values_hold_their_references(l.items@, x);
        tallies_count_occurrences(refs(l.items@), x);
    }
}

} // verus!
