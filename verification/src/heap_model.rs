//! Reference counting as arithmetic on the entries of a heap.
//!
//! An entry's count covers the references that other entries hold and those that
//! are held from outside the heap. `outside` is what is left of the count when
//! the references between entries are taken away. A heap is `sound` when nothing
//! is left negative: then every reference leads to a live entry, and giving up a
//! reference that one holds can never meet a freed slot.

use crate::heap::HeapValue;
use crate::heap_data::{HeapData, child_ids};
use crate::measure::estimated_size;
use crate::resource::ResourceTracker;
use crate::value::{HeapId, lemma_tally_concat, lemma_tally_contains, lemma_tally_positive, tally};
use vstd::prelude::*;

verus! {

/// The slots of a heap.
pub type Entries = Seq<Option<HeapValue>>;

/// Is there a value at the id?
pub open spec fn live(e: Entries, id: HeapId) -> bool {
    id.0 < e.len() && e[id.0 as int] is Some
}

/// Is there a value at the id whose payload is not lent out?
pub open spec fn readable(e: Entries, id: HeapId) -> bool {
    live(e, id) && e[id.0 as int]->0.data is Some
}

/// The payload at the id.
pub open spec fn data_at(e: Entries, id: HeapId) -> HeapData {
    e[id.0 as int]->0.data->0
}

/// The reference count at the id; nothing is counted where there is no value.
pub open spec fn count_at(e: Entries, id: HeapId) -> nat {
    if live(e, id) { e[id.0 as int]->0.refcount as nat } else { 0 }
}

/// The references that one slot holds to `id`.
pub open spec fn part(v: Option<HeapValue>, id: HeapId) -> nat {
    match v {
        Some(value) => match value.data {
            Some(data) => tally(child_ids(data), id),
            None => 0,
        },
        None => 0,
    }
}

/// The references that all slots together hold to `id`.
pub open spec fn inside(e: Entries, id: HeapId) -> nat
    decreases e.len(),
{
    if e.len() == 0 { 0 } else { inside(e.drop_last(), id) + part(e.last(), id) }
}

/// The references to `id` that are counted but not held by any slot.
pub open spec fn outside(e: Entries, id: HeapId) -> int {
    count_at(e, id) - inside(e, id)
}

/// The references that the heap itself keeps: one to the empty tuple in slot zero.
pub open spec fn kept(id: HeapId) -> int {
    if id.0 == 0 { 1 } else { 0 }
}

/// Does every count cover all references, the heap's own one included?
pub open spec fn sound(e: Entries) -> bool {
    forall|id: HeapId| #[trigger] outside(e, id) >= kept(id)
}

/// Does every count also cover the references in `ids`?
pub open spec fn covers(e: Entries, ids: Seq<HeapId>) -> bool {
    forall|id: HeapId| #[trigger] outside(e, id) >= tally(ids, id) + kept(id)
}

pub proof fn lemma_inside_push(e: Entries, v: Option<HeapValue>, id: HeapId)
    ensures
        inside(e.push(v), id) == inside(e, id) + part(v, id),
{
    assert(e.push(v).drop_last() =~= e);
}

pub proof fn lemma_inside_update(e: Entries, i: int, v: Option<HeapValue>, id: HeapId)
    requires
        0 <= i < e.len(),
    ensures
        inside(e.update(i, v), id) + part(e[i], id) == inside(e, id) + part(v, id),
    decreases e.len(),
{
    if i == e.len() - 1 {
        assert(e.update(i, v).drop_last() =~= e.drop_last());
    } else {
        assert(e.update(i, v).drop_last() =~= e.drop_last().update(i, v));
        lemma_inside_update(e.drop_last(), i, v, id);
    }
}

/// A slot holds no more references than all slots together.
pub proof fn lemma_inside_ge(e: Entries, i: int, id: HeapId)
    requires
        0 <= i < e.len(),
    ensures
        inside(e, id) >= part(e[i], id),
{
    lemma_inside_update(e, i, None, id);
}

/// In a sound heap every reference that an entry holds leads to a live entry.
pub proof fn sound_heaps_have_no_dangling_references(e: Entries, holder: HeapId, i: int)
    requires
        sound(e),
        readable(e, holder),
        0 <= i < child_ids(data_at(e, holder)).len(),
    ensures
        live(e, child_ids(data_at(e, holder))[i]),
{
    let ids = child_ids(data_at(e, holder));
    lemma_tally_contains(ids, i);
    lemma_inside_ge(e, holder.0 as int, ids[i]);
    assert(outside(e, ids[i]) >= kept(ids[i]));
}

/// Changing a slot's count by `delta` and nothing else changes `outside` there alone.
pub proof fn lemma_outside_count(e: Entries, i: int, v: HeapValue, id: HeapId)
    requires
        0 <= i < e.len(),
        e[i] is Some,
        v.data == e[i]->0.data,
    ensures
        outside(e.update(i, Some(v)), id) == outside(e, id) + if id.0 == i {
            v.refcount - e[i]->0.refcount
        } else {
            0
        },
{
    lemma_inside_update(e, i, Some(v), id);
}

// ---------------------------------------------------------------------------
// Giving up references
// ---------------------------------------------------------------------------

/// What is left of a heap when references are given up.
#[verifier::ext_equal]
pub struct Released {
    pub entries: Entries,
    /// The free list, the last freed slot last.
    pub free: Seq<HeapId>,
    /// The sizes of the freed payloads, in the order in which they were freed.
    pub sizes: Seq<usize>,
    /// Did every reference lead to a live entry?
    pub ok: bool,
}

/// An entry with one reference less.
pub open spec fn one_less(v: HeapValue) -> HeapValue {
    HeapValue { refcount: (v.refcount - 1) as usize, ..v }
}

/// A bound on how many references can still be given up.
pub open spec fn weight(e: Entries) -> nat
    decreases e.len(),
{
    if e.len() == 0 {
        0
    } else {
        weight(e.drop_last()) + match e.last() {
            Some(v) => (v.refcount + 1) as nat,
            None => 0nat,
        }
    }
}

pub proof fn lemma_weight_update(e: Entries, i: int, v: Option<HeapValue>)
    requires
        0 <= i < e.len(),
    ensures
        weight(e.update(i, v)) + (match e[i] {
            Some(x) => (x.refcount + 1) as nat,
            None => 0nat,
        }) == weight(e) + (match v {
            Some(x) => (x.refcount + 1) as nat,
            None => 0nat,
        }),
    decreases e.len(),
{
    if i == e.len() - 1 {
        assert(e.update(i, v).drop_last() =~= e.drop_last());
    } else {
        assert(e.update(i, v).drop_last() =~= e.drop_last().update(i, v));
        lemma_weight_update(e.drop_last(), i, v);
    }
}

/// The sizes list after a slot is freed.
pub open spec fn sizes_after(sizes: Seq<usize>, v: HeapValue) -> Seq<usize> {
    match v.data {
        Some(data) => sizes.push(estimated_size(data) as usize),
        None => sizes,
    }
}

/// The work list after a slot is freed: its references are given up in turn.
pub open spec fn work_after(work: Seq<HeapId>, v: HeapValue) -> Seq<HeapId> {
    match v.data {
        Some(data) => work + child_ids(data),
        None => work,
    }
}

/// Gives up the references in `work`, the last one first.
///
/// An entry whose last reference is given up is freed, and gives up the
/// references that it holds.
pub open spec fn release(e: Entries, free: Seq<HeapId>, sizes: Seq<usize>, work: Seq<HeapId>) -> Released
    decreases weight(e),
{
    if work.len() == 0 {
        Released { entries: e, free, sizes, ok: true }
    } else {
        let id = work.last();
        if !live(e, id) {
            Released { entries: e, free, sizes, ok: false }
        } else {
            let v = e[id.0 as int]->0;
            proof {
                lemma_weight_update(e, id.0 as int, Some(one_less(v)));
                lemma_weight_update(e, id.0 as int, None);
            }
            if v.refcount > 1 {
                release(e.update(id.0 as int, Some(one_less(v))), free, sizes, work.drop_last())
            } else {
                release(
                    e.update(id.0 as int, None),
                    free.push(id),
                    sizes_after(sizes, v),
                    work_after(work.drop_last(), v),
                )
            }
        }
    }
}

/// Has a slot, after some references were given up, either the same value with a
/// count that is no higher, or none?
pub open spec fn shrunk(before: Option<HeapValue>, after: Option<HeapValue>) -> bool {
    match after {
        Some(v) => match before {
            Some(u) => v.data == u.data && v.hash_state == u.hash_state && 1 <= v.refcount <= u.refcount,
            None => false,
        },
        None => true,
    }
}

/// Are all counts at least one?
pub open spec fn counted(e: Entries) -> bool {
    forall|i: int| 0 <= i < e.len() ==> (#[trigger] e[i] matches Some(v) ==> v.refcount >= 1)
}

/// Does the free list hold each empty slot once?
pub open spec fn free_matches(e: Entries, free: Seq<HeapId>) -> bool {
    &&& free.no_duplicates()
    &&& forall|k: int| 0 <= k < free.len() ==> (#[trigger] free[k]).0 < e.len() && e[free[k].0 as int] is None
    &&& forall|i: int| 0 <= i < e.len() && (#[trigger] e[i]) is None ==> free.contains(HeapId(i as usize))
}

/// Giving up one reference of a live entry.
proof fn lemma_release_step(e: Entries, work: Seq<HeapId>)
    requires
        work.len() > 0,
        covers(e, work),
    ensures
        live(e, work.last()),
        ({
            let id = work.last();
            let v = e[id.0 as int]->0;
            if v.refcount > 1 {
                let next = e.update(id.0 as int, Some(one_less(v)));
                &&& covers(next, work.drop_last())
                &&& forall|x: HeapId|
                    #[trigger] outside(next, x) - tally(work.drop_last(), x) == outside(e, x) - tally(work, x)
            } else {
                let next = e.update(id.0 as int, None);
                let more = work_after(work.drop_last(), v);
                &&& covers(next, more)
                &&& forall|x: HeapId| #[trigger] outside(next, x) - tally(more, x) == outside(e, x) - tally(work, x)
            }
        }),
{
    let id = work.last();
    let i = id.0 as int;
    lemma_tally_contains(work, work.len() - 1);
    assert(outside(e, id) >= tally(work, id) + kept(id));
    let v = e[i]->0;
    let rest = work.drop_last();
    if v.refcount > 1 {
        let next = e.update(i, Some(one_less(v)));
        assert forall|x: HeapId| #[trigger]
            outside(next, x) - tally(rest, x) == outside(e, x) - tally(work, x) by {
            lemma_outside_count(e, i, one_less(v), x);
        }
        assert forall|x: HeapId| #[trigger] outside(next, x) >= tally(rest, x) + kept(x) by {
            assert(outside(e, x) >= tally(work, x) + kept(x));
        }
    } else {
        let next = e.update(i, None);
        let more = work_after(rest, v);
        assert forall|x: HeapId| #[trigger]
            outside(next, x) - tally(more, x) == outside(e, x) - tally(work, x) by {
            lemma_inside_update(e, i, None, x);
            if let Some(data) = v.data {
                lemma_tally_concat(rest, child_ids(data), x);
            }
            assert(outside(e, id) >= tally(work, id) + kept(id));
        }
        assert forall|x: HeapId| #[trigger] outside(next, x) >= tally(more, x) + kept(x) by {
            assert(outside(e, x) >= tally(work, x) + kept(x));
        }
    }
}

/// Giving up references that one holds meets no freed slot, and takes exactly
/// those references off what is counted outside.
pub proof fn lemma_release(e: Entries, free: Seq<HeapId>, sizes: Seq<usize>, work: Seq<HeapId>)
    requires
        covers(e, work),
    ensures
        release(e, free, sizes, work).ok,
        sound(release(e, free, sizes, work).entries),
        forall|x: HeapId|
            #[trigger] outside(release(e, free, sizes, work).entries, x) == outside(e, x) - tally(work, x),
    decreases weight(e),
{
    if work.len() == 0 {
        assert forall|x: HeapId| #[trigger] outside(e, x) >= kept(x) by {
            assert(outside(e, x) >= tally(work, x) + kept(x));
        }
    } else {
        lemma_release_step(e, work);
        let id = work.last();
        let i = id.0 as int;
        let v = e[i]->0;
        lemma_weight_update(e, i, Some(one_less(v)));
        lemma_weight_update(e, i, None);
        if v.refcount > 1 {
            let next = e.update(i, Some(one_less(v)));
            lemma_release(next, free, sizes, work.drop_last());
            assert forall|x: HeapId| #[trigger]
                outside(release(e, free, sizes, work).entries, x) == outside(e, x) - tally(work, x) by {
                assert(outside(next, x) - tally(work.drop_last(), x) == outside(e, x) - tally(work, x));
            }
        } else {
            let next = e.update(i, None);
            let more = work_after(work.drop_last(), v);
            lemma_release(next, free.push(id), sizes_after(sizes, v), more);
            assert forall|x: HeapId| #[trigger]
                outside(release(e, free, sizes, work).entries, x) == outside(e, x) - tally(work, x) by {
                assert(outside(next, x) - tally(more, x) == outside(e, x) - tally(work, x));
            }
        }
    }
}

/// What giving up references leaves as it was.
pub proof fn lemma_release_shape(e: Entries, free: Seq<HeapId>, sizes: Seq<usize>, work: Seq<HeapId>)
    requires
        counted(e),
        free_matches(e, free),
    ensures
        release(e, free, sizes, work).entries.len() == e.len(),
        counted(release(e, free, sizes, work).entries),
        free_matches(release(e, free, sizes, work).entries, release(e, free, sizes, work).free),
        forall|i: int|
            0 <= i < e.len() ==> shrunk(e[i], #[trigger] release(e, free, sizes, work).entries[i]),
    decreases weight(e),
{
    if work.len() > 0 && live(e, work.last()) {
        let id = work.last();
        let k = id.0 as int;
        let v = e[k]->0;
        lemma_weight_update(e, k, Some(one_less(v)));
        lemma_weight_update(e, k, None);
        let r = release(e, free, sizes, work);
        if v.refcount > 1 {
            let next = e.update(k, Some(one_less(v)));
            assert(free_matches(next, free)) by {
                assert forall|i: int| 0 <= i < next.len() && (#[trigger] next[i]) is None implies free.contains(
                    HeapId(i as usize),
                ) by {
                    assert(e[i] is None);
                }
                assert forall|j: int| 0 <= j < free.len() implies (#[trigger] free[j]).0 < next.len()
                    && next[free[j].0 as int] is None by {
                    assert(e[free[j].0 as int] is None);
                }
            }
            lemma_release_shape(next, free, sizes, work.drop_last());
            assert forall|i: int| 0 <= i < e.len() implies shrunk(e[i], #[trigger] r.entries[i]) by {
                assert(shrunk(next[i], r.entries[i]));
            }
        } else {
            let next = e.update(k, None);
            assert(free_matches(next, free.push(id))) by {
                let all = free.push(id);
                assert(!free.contains(id)) by {
                    if free.contains(id) {
                        let j = choose|j: int| 0 <= j < free.len() && free[j] == id;
                        assert(e[free[j].0 as int] is None);
                    }
                }
                assert forall|a: int, b: int| 0 <= a < all.len() && 0 <= b < all.len() && a != b implies all[a]
                    != all[b] by {
                    if a < free.len() {
                        assert(free.contains(free[a]));
                    }
                    if b < free.len() {
                        assert(free.contains(free[b]));
                    }
                }
                assert forall|i: int| 0 <= i < next.len() && (#[trigger] next[i]) is None implies all.contains(
                    HeapId(i as usize),
                ) by {
                    if i == k {
                        assert(all[free.len() as int] == HeapId(i as usize));
                    } else {
                        assert(e[i] is None);
                        let j = choose|j: int| 0 <= j < free.len() && free[j] == HeapId(i as usize);
                        assert(all[j] == HeapId(i as usize));
                    }
                }
                assert forall|j: int| 0 <= j < all.len() implies (#[trigger] all[j]).0 < next.len()
                    && next[all[j].0 as int] is None by {
                    if j < free.len() {
                        assert(free[j].0 < e.len());
                    }
                }
            }
            lemma_release_shape(next, free.push(id), sizes_after(sizes, v), work_after(work.drop_last(), v));
            assert forall|i: int| 0 <= i < e.len() implies shrunk(e[i], #[trigger] r.entries[i]) by {
                assert(shrunk(next[i], r.entries[i]));
            }
        }
    } else {
        let r = release(e, free, sizes, work);
        assert forall|i: int| 0 <= i < e.len() implies shrunk(e[i], #[trigger] r.entries[i]) by {
            if e[i] is Some {
            }
        }
    }
}

/// May a tracker that is told of freed payloads of these sizes, in order, turn
/// from `before` into `after`?
pub open spec fn told_of_frees<T: ResourceTracker>(before: T, sizes: Seq<usize>, after: T) -> bool
    decreases sizes.len(),
{
    if sizes.len() == 0 {
        after == before
    } else {
        exists|mid: T|
            told_of_frees(before, sizes.drop_last(), mid) && #[trigger] mid.free_outcome(sizes.last(), after)
    }
}

/// Appending a free to a tracker's history.
pub proof fn lemma_told_push<T: ResourceTracker>(before: T, sizes: Seq<usize>, mid: T, size: usize, after: T)
    requires
        told_of_frees(before, sizes, mid),
        mid.free_outcome(size, after),
    ensures
        told_of_frees(before, sizes.push(size), after),
{
    let all = sizes.push(size);
    assert(all.drop_last() =~= sizes);
    assert(told_of_frees(before, all.drop_last(), mid));
    assert(mid.free_outcome(all.last(), after));
}

// ---------------------------------------------------------------------------
// Reachability
// ---------------------------------------------------------------------------

/// Does the entry at `from` hold a reference to `to`?
pub open spec fn edge(e: Entries, from: HeapId, to: HeapId) -> bool {
    readable(e, from) && child_ids(data_at(e, from)).contains(to)
}

/// Is `id` at the end of a path of `steps` references that starts at a root?
///
/// The empty tuple in slot zero is a root of every heap.
pub open spec fn reached(e: Entries, roots: Seq<HeapId>, id: HeapId, steps: nat) -> bool
    decreases steps,
{
    if steps == 0 {
        id.0 == 0 || roots.contains(id)
    } else {
        exists|from: HeapId| reached(e, roots, from, (steps - 1) as nat) && #[trigger] edge(e, from, id)
    }
}

/// Can `id` be reached from the roots?
pub open spec fn reachable(e: Entries, roots: Seq<HeapId>, id: HeapId) -> bool {
    exists|steps: nat| reached(e, roots, id, steps)
}

/// What a reachable entry refers to is reachable.
pub proof fn lemma_reachable_edge(e: Entries, roots: Seq<HeapId>, from: HeapId, to: HeapId)
    requires
        reachable(e, roots, from),
        edge(e, from, to),
    ensures
        reachable(e, roots, to),
{
    let n = choose|n: nat| reached(e, roots, from, n);
    assert(reached(e, roots, from, ((n + 1) - 1) as nat));
    assert(reached(e, roots, to, n + 1));
}

/// A set of slots that holds the roots and all that its slots refer to holds
/// everything that can be reached.
pub proof fn lemma_closed(e: Entries, roots: Seq<HeapId>, marked: Seq<bool>, id: HeapId, steps: nat)
    requires
        marked.len() == e.len(),
        forall|r: HeapId| (r.0 == 0 || roots.contains(r)) && r.0 < e.len() ==> #[trigger] marked[r.0 as int],
        forall|from: HeapId, to: HeapId|
            from.0 < e.len() && to.0 < e.len() && marked[from.0 as int] && #[trigger] edge(e, from, to)
                ==> marked[to.0 as int],
        reached(e, roots, id, steps),
        id.0 < e.len(),
    ensures
        marked[id.0 as int],
    decreases steps,
{
    if steps > 0 {
        let from = choose|from: HeapId|
            reached(e, roots, from, (steps - 1) as nat) && #[trigger] edge(e, from, id);
        lemma_closed(e, roots, marked, from, (steps - 1) as nat);
    } else {
        assert(id.0 == 0 || roots.contains(id));
        assert(marked[id.0 as int]);
    }
}

/// The slots that keep their value: those that are marked.
pub open spec fn swept(e: Entries, marked: Seq<bool>) -> Entries {
    Seq::new(e.len(), |i: int| if marked[i] { e[i] } else { None })
}

/// The values that a sweep of the first `n` slots frees, in order.
pub open spec fn freed_ids(e: Entries, marked: Seq<bool>, n: nat) -> Seq<HeapId>
    decreases n,
{
    if n == 0 {
        Seq::empty()
    } else {
        let rest = freed_ids(e, marked, (n - 1) as nat);
        if !marked[n - 1] && e[n - 1] is Some { rest.push(HeapId((n - 1) as usize)) } else { rest }
    }
}

/// The sizes of the payloads that a sweep of the first `n` slots frees, in order.
pub open spec fn freed_sizes(e: Entries, marked: Seq<bool>, n: nat) -> Seq<usize>
    decreases n,
{
    if n == 0 {
        Seq::empty()
    } else {
        let rest = freed_sizes(e, marked, (n - 1) as nat);
        if !marked[n - 1] && e[n - 1] is Some { sizes_after(rest, e[n - 1]->0) } else { rest }
    }
}

/// Freeing slots takes references away and adds none.
pub proof fn lemma_swept_inside(e: Entries, marked: Seq<bool>, n: nat, id: HeapId)
    requires
        n <= e.len() <= marked.len(),
    ensures
        inside(swept(e, marked).take(n as int), id) <= inside(e.take(n as int), id),
    decreases n,
{
    let s = swept(e, marked);
    if n > 0 {
        lemma_swept_inside(e, marked, (n - 1) as nat, id);
        assert(s.take(n as int).drop_last() =~= s.take(n - 1));
        assert(e.take(n as int).drop_last() =~= e.take(n - 1));
    } else {
        assert(s.take(0) =~= Seq::empty());
        assert(e.take(0) =~= Seq::empty());
    }
}

/// Where no slot holds a reference to `id`, all together hold none.
pub proof fn lemma_inside_zero(e: Entries, id: HeapId)
    requires
        forall|i: int| 0 <= i < e.len() ==> part(#[trigger] e[i], id) == 0,
    ensures
        inside(e, id) == 0,
    decreases e.len(),
{
    if e.len() > 0 {
        assert(part(e[e.len() - 1], id) == 0);
        assert forall|i: int| 0 <= i < e.drop_last().len() implies part(#[trigger] e.drop_last()[i], id) == 0 by {
            assert(part(e[i], id) == 0);
        }
        lemma_inside_zero(e.drop_last(), id);
    }
}

/// A sweep of everything that cannot be reached keeps a heap sound, and what is
/// counted outside for the entries that stay does not fall.
pub proof fn lemma_sweep(e: Entries, roots: Seq<HeapId>, marked: Seq<bool>)
    requires
        sound(e),
        marked.len() == e.len(),
        forall|i: int| 0 <= i < e.len() ==> #[trigger] marked[i] == reachable(e, roots, HeapId(i as usize)),
        e.len() <= usize::MAX,
    ensures
        sound(swept(e, marked)),
        forall|id: HeapId| live(swept(e, marked), id) ==> #[trigger] outside(swept(e, marked), id) >= outside(e, id),
{
    let s = swept(e, marked);
    assert forall|id: HeapId| #[trigger] outside(s, id) >= kept(id) && (live(s, id) ==> outside(s, id) >= outside(
        e,
        id,
    )) by {
        lemma_swept_inside(e, marked, e.len(), id);
        assert(s.take(e.len() as int) =~= s);
        assert(e.take(e.len() as int) =~= e);
        assert(outside(e, id) >= kept(id));
        if !live(s, id) {
            assert forall|i: int| 0 <= i < s.len() implies part(#[trigger] s[i], id) == 0 by {
                if part(s[i], id) > 0 {
                    let from = HeapId(i as usize);
                    assert(marked[i]);
                    lemma_tally_positive(child_ids(data_at(e, from)), id);
                    assert(edge(e, from, id));
                    lemma_reachable_edge(e, roots, from, id);
                    lemma_inside_ge(e, i, id);
                    assert(live(e, id));
                    assert(marked[id.0 as int] == reachable(e, roots, HeapId(id.0)));
                }
            }
            lemma_inside_zero(s, id);
            if id.0 == 0 {
                assert(live(e, id));
                assert(reached(e, roots, id, 0));
                assert(marked[0] == reachable(e, roots, HeapId(0usize)));
            }
        }
    }
}

} // verus!
