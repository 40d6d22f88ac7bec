//! Taking and giving up references to heap values.

use crate::heap::{Heap, HeapModel, HeapValue, EMPTY_TUPLE_SLOT, one_more};
use crate::heap_access::lemma_wf_update;
use crate::heap_data::{CellValue, HeapData, HeapDataMut};
use crate::heap_model::{
    Entries, Released, count_at, counted, covers, data_at, inside, kept, lemma_release, lemma_release_shape,
    lemma_weight_update, live, one_less, outside, part, readable, release, shrunk, sizes_after, sound, told_of_frees,
    weight, work_after,
};
use crate::resource::ResourceTracker;
use crate::value::{
    HeapId, Value, holds, lemma_holds_ge, lemma_holds_one, lemma_refs_concat, lemma_refs_push, lemma_tally_concat,
    lemma_tally_push,
    refs, tally,
};
use vstd::prelude::*;

verus! {

// ---------------------------------------------------------------------------
// Taking references
// ---------------------------------------------------------------------------

/// Is a slot the same as before but for a count that is higher by `n`?
pub open spec fn slot_bumped(before: Option<HeapValue>, after: Option<HeapValue>, n: nat) -> bool {
    match before {
        Some(u) => match after {
            Some(v) => v.data == u.data && v.hash_state == u.hash_state && v.refcount == u.refcount + n,
            None => false,
        },
        None => after is None && n == 0,
    }
}

/// Are the entries the same as before but for one reference more for each id in `ids`?
pub open spec fn bumped(before: Entries, after: Entries, ids: Seq<HeapId>) -> bool {
    &&& after.len() == before.len()
    &&& forall|i: int|
        0 <= i < before.len() ==> slot_bumped(before[i], #[trigger] after[i], tally(ids, HeapId(i as usize)))
}

/// Does every id lead to a live entry?
pub open spec fn all_live(e: Entries, ids: Seq<HeapId>) -> bool {
    forall|i: int| 0 <= i < ids.len() ==> live(e, #[trigger] ids[i])
}

/// Entries that hold the same payloads hold the same references.
pub proof fn lemma_same_inside(a: Entries, b: Entries, x: HeapId)
    requires
        a.len() == b.len(),
        forall|i: int| 0 <= i < a.len() ==> part(#[trigger] b[i], x) == part(a[i], x),
    ensures
        inside(a, x) == inside(b, x),
    decreases a.len(),
{
    if a.len() > 0 {
        assert(part(b[a.len() - 1], x) == part(a[a.len() - 1], x));
        assert forall|i: int| 0 <= i < a.drop_last().len() implies part(#[trigger] b.drop_last()[i], x) == part(
            a.drop_last()[i],
            x,
        ) by {
            assert(part(b[i], x) == part(a[i], x));
        }
        lemma_same_inside(a.drop_last(), b.drop_last(), x);
    }
}

/// Taking references adds exactly those references to what is counted outside.
pub proof fn lemma_bumped(a: Entries, b: Entries, ids: Seq<HeapId>)
    requires
        bumped(a, b, ids),
        all_live(a, ids),
    ensures
        forall|x: HeapId| #[trigger] outside(b, x) == outside(a, x) + tally(ids, x),
        forall|x: HeapId| #[trigger] live(b, x) == live(a, x),
        sound(a) ==> sound(b),
{
    assert forall|x: HeapId| #[trigger] outside(b, x) == outside(a, x) + tally(ids, x) by {
        assert forall|i: int| 0 <= i < a.len() implies part(#[trigger] b[i], x) == part(a[i], x) by {
            assert(slot_bumped(a[i], b[i], tally(ids, HeapId(i as usize))));
        }
        lemma_same_inside(a, b, x);
        if x.0 < a.len() {
            assert(slot_bumped(a[x.0 as int], b[x.0 as int], tally(ids, HeapId(x.0))));
        } else if tally(ids, x) > 0 {
            crate::value::lemma_tally_positive(ids, x);
            let k = choose|k: int| 0 <= k < ids.len() && ids[k] == x;
            assert(live(a, ids[k]));
        }
    }
    assert forall|x: HeapId| #[trigger] live(b, x) == live(a, x) by {
        if x.0 < a.len() {
            assert(slot_bumped(a[x.0 as int], b[x.0 as int], tally(ids, HeapId(x.0))));
        }
    }
    if sound(a) {
        assert forall|x: HeapId| #[trigger] outside(b, x) >= kept(x) by {
            assert(outside(a, x) >= kept(x));
        }
    }
}

pub proof fn lemma_bumped_nothing(a: Entries)
    ensures
        bumped(a, a, Seq::empty()),
{
}

pub proof fn lemma_bumped_push(a: Entries, b: Entries, ids: Seq<HeapId>, id: HeapId)
    requires
        bumped(a, b, ids),
        live(b, id),
        count_at(b, id) < usize::MAX,
        a.len() <= usize::MAX,
    ensures
        bumped(a, one_more(b, id), ids.push(id)),
{
    let c = one_more(b, id);
    assert forall|i: int| 0 <= i < a.len() implies slot_bumped(
        a[i],
        #[trigger] c[i],
        tally(ids.push(id), HeapId(i as usize)),
    ) by {
        assert(slot_bumped(a[i], b[i], tally(ids, HeapId(i as usize))));
        lemma_tally_push(ids, id, HeapId(i as usize));
    }
}

pub proof fn lemma_bumped_trans(a: Entries, b: Entries, c: Entries, ids: Seq<HeapId>, more: Seq<HeapId>)
    requires
        bumped(a, b, ids),
        bumped(b, c, more),
    ensures
        bumped(a, c, ids + more),
{
    assert forall|i: int| 0 <= i < a.len() implies slot_bumped(
        a[i],
        #[trigger] c[i],
        tally(ids + more, HeapId(i as usize)),
    ) by {
        assert(slot_bumped(a[i], b[i], tally(ids, HeapId(i as usize))));
        assert(slot_bumped(b[i], c[i], tally(more, HeapId(i as usize))));
        lemma_tally_concat(ids, more, HeapId(i as usize));
    }
}

// ---------------------------------------------------------------------------
// Giving up references
// ---------------------------------------------------------------------------

/// Have the references in `ids` been given up, and nothing else been changed?
///
/// What stays keeps its payload; what is counted outside falls by exactly the
/// references in `ids`.
pub open spec fn gave_up(before: Entries, after: Entries, ids: Seq<HeapId>) -> bool {
    &&& after.len() == before.len()
    &&& sound(after)
    &&& forall|i: int| 0 <= i < before.len() ==> shrunk(before[i], #[trigger] after[i])
    &&& forall|x: HeapId| #[trigger] outside(after, x) == outside(before, x) - tally(ids, x)
}

pub proof fn lemma_gave_up_nothing(e: Entries)
    requires
        sound(e),
        counted(e),
    ensures
        gave_up(e, e, Seq::empty()),
{
    assert forall|i: int| 0 <= i < e.len() implies shrunk(e[i], #[trigger] e[i]) by {
    }
}

pub proof fn lemma_gave_up_trans(a: Entries, b: Entries, c: Entries, ids: Seq<HeapId>, more: Seq<HeapId>)
    requires
        gave_up(a, b, ids),
        gave_up(b, c, more),
    ensures
        gave_up(a, c, ids + more),
{
    assert forall|i: int| 0 <= i < a.len() implies shrunk(a[i], #[trigger] c[i]) by {
        assert(shrunk(a[i], b[i]));
        assert(shrunk(b[i], c[i]));
    }
    assert forall|x: HeapId| #[trigger] outside(c, x) == outside(a, x) - tally(ids + more, x) by {
        assert(outside(b, x) == outside(a, x) - tally(ids, x));
        lemma_tally_concat(ids, more, x);
    }
}

/// Entries that are still held from outside survive when references are given up.
pub proof fn held_entries_survive(before: Entries, after: Entries, ids: Seq<HeapId>, x: HeapId)
    requires
        gave_up(before, after, ids),
        outside(before, x) > tally(ids, x),
    ensures
        live(after, x),
        live(before, x),
        after[x.0 as int]->0.data == before[x.0 as int]->0.data,
{
    assert(outside(after, x) == outside(before, x) - tally(ids, x));
    assert(shrunk(before[x.0 as int], after[x.0 as int]));
}

impl<T: ResourceTracker> HeapModel<T> {
    /// What is left of the heap when one value is given up.
    pub open spec fn dropped(self, v: Value) -> Released {
        release(self.entries, self.free, Seq::empty(), refs(seq![v]))
    }

    /// Are the items of the list at the id counted once more and put behind those in
    /// `items`, which become `longer`? Nothing happens where there is no list.
    pub open spec fn extends(
        self,
        after: HeapModel<T>,
        id: HeapId,
        items: Seq<Value>,
        longer: Seq<Value>,
        r: bool,
    ) -> bool {
        match data_at(self.entries, id) {
            HeapData::List(l) => {
                &&& r
                &&& longer == items + l.items@
                &&& bumped(self.entries, after.entries, refs(l.items@))
                &&& after == self.with_entries(after.entries)
            },
            _ => !r && longer == items && after == self,
        }
    }

    /// Does giving up the value meet only live entries, and leave the empty tuple?
    pub open spec fn can_drop(self, v: Value) -> bool {
        self.dropped(v).ok && live(self.dropped(v).entries, HeapId(EMPTY_TUPLE_SLOT))
    }

    /// Is `after` this heap with nothing changed but entries, free list and tracker?
    pub open spec fn same_settings(self, after: HeapModel<T>) -> bool {
        &&& after.may_have_cycles == self.may_have_cycles
        &&& after.allocations_since_gc == self.allocations_since_gc
        &&& after.recursion_depth == self.recursion_depth
    }

    /// Is `after` the heap once the references in `work` are given up, the last one
    /// first? The tracker is told of the payloads that are freed, and of no others.
    pub open spec fn released(self, after: HeapModel<T>, work: Seq<HeapId>) -> bool {
        let r = release(self.entries, self.free, Seq::empty(), work);
        &&& r.ok
        &&& after == (HeapModel { entries: r.entries, free: r.free, tracker: after.tracker, ..self })
        &&& told_of_frees(self.tracker, r.sizes, after.tracker)
    }

    /// Has the heap given up the references in `ids`, in some order, and told its
    /// tracker of the payloads that were freed?
    pub open spec fn gave_up(self, after: HeapModel<T>, ids: Seq<HeapId>) -> bool {
        &&& after.wf()
        &&& gave_up(self.entries, after.entries, ids)
        &&& self.same_settings(after)
        &&& exists|work: Seq<HeapId>| same_tally(work, ids) && #[trigger] self.released(after, work)
    }
}

/// Do two lists name every id equally often?
pub open spec fn same_tally(a: Seq<HeapId>, b: Seq<HeapId>) -> bool {
    forall|x: HeapId| #[trigger] tally(a, x) == tally(b, x)
}

/// What was freed before does not change what is freed next.
proof fn lemma_release_sizes(e: Entries, free: Seq<HeapId>, sizes: Seq<usize>, work: Seq<HeapId>)
    ensures
        release(e, free, sizes, work).entries == release(e, free, Seq::empty(), work).entries,
        release(e, free, sizes, work).free == release(e, free, Seq::empty(), work).free,
        release(e, free, sizes, work).ok == release(e, free, Seq::empty(), work).ok,
        release(e, free, sizes, work).sizes == sizes + release(e, free, Seq::empty(), work).sizes,
    decreases weight(e),
{
    let none = Seq::<usize>::empty();
    if work.len() == 0 || !live(e, work.last()) {
        assert(sizes + none =~= sizes);
    } else {
        let i = work.last().0 as int;
        let v = e[i]->0;
        lemma_weight_update(e, i, Some(one_less(v)));
        lemma_weight_update(e, i, None);
        if v.refcount > 1 {
            lemma_release_sizes(e.update(i, Some(one_less(v))), free, sizes, work.drop_last());
        } else {
            let (next, rest) = (e.update(i, None), work_after(work.drop_last(), v));
            let (more, one) = (sizes_after(sizes, v), sizes_after(none, v));
            lemma_release_sizes(next, free.push(work.last()), more, rest);
            lemma_release_sizes(next, free.push(work.last()), one, rest);
            let tail = release(next, free.push(work.last()), none, rest).sizes;
            assert(more + tail =~= sizes + (one + tail));
        }
    }
}

/// Giving up two lists of references is giving up the one behind, and then the other.
proof fn lemma_release_concat(e: Entries, free: Seq<HeapId>, sizes: Seq<usize>, a: Seq<HeapId>, b: Seq<HeapId>)
    requires
        release(e, free, sizes, b).ok,
    ensures
        ({
            let r = release(e, free, sizes, b);
            release(e, free, sizes, a + b) == release(r.entries, r.free, r.sizes, a)
        }),
    decreases weight(e),
{
    if b.len() == 0 {
        assert(a + b =~= a);
    } else {
        let i = b.last().0 as int;
        let v = e[i]->0;
        lemma_weight_update(e, i, Some(one_less(v)));
        lemma_weight_update(e, i, None);
        assert((a + b).last() == b.last());
        assert((a + b).drop_last() =~= a + b.drop_last());
        if v.refcount > 1 {
            lemma_release_concat(e.update(i, Some(one_less(v))), free, sizes, a, b.drop_last());
        } else {
            let rest = work_after(b.drop_last(), v);
            assert(work_after((a + b).drop_last(), v) =~= a + rest);
            lemma_release_concat(e.update(i, None), free.push(b.last()), sizes_after(sizes, v), a, rest);
        }
    }
}

/// Giving up references in two steps is giving them up in one.
pub proof fn lemma_released_trans<T: ResourceTracker>(
    a: HeapModel<T>,
    b: HeapModel<T>,
    c: HeapModel<T>,
    first: Seq<HeapId>,
    second: Seq<HeapId>,
)
    requires
        a.released(b, first),
        b.released(c, second),
    ensures
        a.released(c, second + first),
{
    let r = release(a.entries, a.free, Seq::empty(), first);
    let q = release(b.entries, b.free, Seq::empty(), second);
    lemma_release_concat(a.entries, a.free, Seq::empty(), second, first);
    lemma_release_sizes(b.entries, b.free, r.sizes, second);
    lemma_told_trans(a.tracker, r.sizes, b.tracker, q.sizes, c.tracker);
}

pub proof fn lemma_told_trans<T: ResourceTracker>(a: T, s: Seq<usize>, b: T, t: Seq<usize>, c: T)
    requires
        told_of_frees(a, s, b),
        told_of_frees(b, t, c),
    ensures
        told_of_frees(a, s + t, c),
    decreases t.len(),
{
    if t.len() == 0 {
        assert(s + t =~= s);
    } else {
        let mid = choose|mid: T| told_of_frees(b, t.drop_last(), mid) && #[trigger] mid.free_outcome(t.last(), c);
        lemma_told_trans(a, s, b, t.drop_last(), mid);
        crate::heap_model::lemma_told_push(a, s + t.drop_last(), mid, t.last(), c);
        assert((s + t.drop_last()).push(t.last()) =~= s + t);
    }
}

pub proof fn lemma_model_gave_up_trans<T: ResourceTracker>(
    a: HeapModel<T>,
    b: HeapModel<T>,
    c: HeapModel<T>,
    ids: Seq<HeapId>,
    more: Seq<HeapId>,
)
    requires
        a.gave_up(b, ids),
        b.gave_up(c, more),
    ensures
        a.gave_up(c, ids + more),
{
    lemma_gave_up_trans(a.entries, b.entries, c.entries, ids, more);
    let v = choose|v: Seq<HeapId>| same_tally(v, ids) && #[trigger] a.released(b, v);
    let w = choose|w: Seq<HeapId>| same_tally(w, more) && #[trigger] b.released(c, w);
    lemma_released_trans(a, b, c, v, w);
    assert forall|x: HeapId| #[trigger] tally(w + v, x) == tally(ids + more, x) by {
        lemma_tally_concat(w, v, x);
        lemma_tally_concat(ids, more, x);
        assert(tally(v, x) == tally(ids, x) && tally(w, x) == tally(more, x));
    }
}

/// How deep the recursion is does not matter for giving up references.
pub proof fn lemma_gave_up_at_depth<T: ResourceTracker>(a: HeapModel<T>, b: HeapModel<T>, ids: Seq<HeapId>, depth: usize)
    requires
        a.gave_up(b, ids),
    ensures
        (HeapModel { recursion_depth: depth, ..a }).gave_up(HeapModel { recursion_depth: depth, ..b }, ids),
{
    let work = choose|work: Seq<HeapId>| same_tally(work, ids) && #[trigger] a.released(b, work);
    assert((HeapModel { recursion_depth: depth, ..a }).released(HeapModel { recursion_depth: depth, ..b }, work));
}

pub proof fn lemma_model_gave_up_nothing<T: ResourceTracker>(m: HeapModel<T>)
    requires
        m.wf(),
        sound(m.entries),
    ensures
        m.gave_up(m, Seq::empty()),
{
    lemma_gave_up_nothing(m.entries);
    assert(told_of_frees(m.tracker, Seq::empty(), m.tracker));
    assert(m.released(m, Seq::empty()));
}

/// A value that one holds can be given up, and giving it up is balanced.
pub proof fn lemma_can_drop<T: ResourceTracker>(m: HeapModel<T>, v: Value)
    requires
        m.wf(),
        covers(m.entries, refs(seq![v])),
    ensures
        m.can_drop(v),
        gave_up(m.entries, m.dropped(v).entries, refs(seq![v])),
{
    lemma_release(m.entries, m.free, Seq::empty(), refs(seq![v]));
    lemma_release_shape(m.entries, m.free, Seq::empty(), refs(seq![v]));
    assert(outside(m.dropped(v).entries, HeapId(EMPTY_TUPLE_SLOT)) >= kept(HeapId(EMPTY_TUPLE_SLOT)));
}

pub proof fn lemma_covers_part(e: Entries, all: Seq<HeapId>, some: Seq<HeapId>)
    requires
        covers(e, all),
        forall|x: HeapId| #[trigger] tally(some, x) <= tally(all, x),
    ensures
        covers(e, some),
        sound(e),
{
    assert forall|x: HeapId| #[trigger] outside(e, x) >= tally(some, x) + kept(x) by {
        assert(tally(some, x) <= tally(all, x));
    }
    assert forall|x: HeapId| #[trigger] outside(e, x) >= kept(x) by {
        assert(tally(some, x) <= tally(all, x));
    }
}

impl<T: ResourceTracker> Heap<T> {
    /// Returns a copy of a value, with the reference that it holds counted.
    pub fn clone_value(&mut self, v: Value) -> (r: Value)
        requires
            old(self)@.wf(),
            v matches Value::Ref(id) ==> live(old(self)@.entries, id) && count_at(old(self)@.entries, id)
                < usize::MAX,
        ensures
            r == v,
            final(self)@.wf(),
            bumped(old(self)@.entries, final(self)@.entries, refs(seq![v])),
            final(self)@ == old(self)@.with_entries(final(self)@.entries),
    {
        proof {
            assert(seq![v] =~= Seq::<Value>::empty().push(v));
            lemma_refs_push(Seq::empty(), v);
            lemma_bumped_nothing(self@.entries);
        }
        if let Value::Ref(id) = v {
            proof {
                lemma_bumped_push(self@.entries, self@.entries, Seq::empty(), id);
            }
            self.inc_ref(id);
        }
        v
    }

    /// Returns copies of some values, with the references that they hold counted.
    pub fn clone_values(&mut self, vs: &[Value]) -> (r: Vec<Value>)
        requires
            old(self)@.wf(),
            all_live(old(self)@.entries, refs(vs@)),
            old(self)@.room(vs@.len()),
        ensures
            r@ == vs@,
            final(self)@.wf(),
            bumped(old(self)@.entries, final(self)@.entries, refs(vs@)),
            final(self)@ == old(self)@.with_entries(final(self)@.entries),
    {
        let mut r: Vec<Value> = Vec::with_capacity(vs.len());
        let mut i: usize = 0;
        proof {
            assert(vs@.take(0) =~= Seq::empty());
            lemma_bumped_nothing(self@.entries);
        }
        while i < vs.len()
            invariant
                i <= vs@.len(),
                r@ == vs@.take(i as int),
                self@.wf(),
                old(self)@.wf(),
                all_live(old(self)@.entries, refs(vs@)),
                old(self)@.room(vs@.len()),
                bumped(old(self)@.entries, self@.entries, refs(vs@.take(i as int))),
                self@ == old(self)@.with_entries(self@.entries),
            decreases vs.len() - i,
        {
            let ghost before = self@.entries;
            let v: Value = vs[i];
            proof {
                let head = vs@.take(i as int);
                assert(vs@.take(i + 1) =~= head.push(v));
                lemma_refs_push(head, v);
                if let Value::Ref(id) = v {
                    lemma_ref_in_refs(vs@, i as int);
                    let k = choose|k: int| 0 <= k < refs(vs@).len() && refs(vs@)[k] == id;
                    assert(live(old(self)@.entries, refs(vs@)[k]));
                    let slot = id.0 as int;
                    assert(slot_bumped(old(self)@.entries[slot], before[slot], tally(refs(head), HeapId(slot as usize))));
                    lemma_tally_bound(refs(head), id);
                    lemma_refs_len(head);
                }
            }
            let copy: Value = self.clone_value(v);
            r.push(copy);
            proof {
                assert(r@ =~= vs@.take(i + 1));
                assert(seq![v] =~= Seq::<Value>::empty().push(v));
                lemma_refs_push(Seq::empty(), v);
                lemma_bumped_trans(old(self)@.entries, before, self@.entries, refs(vs@.take(i as int)), refs(seq![v]));
                assert(refs(vs@.take(i as int)) + refs(seq![v]) =~= refs(vs@.take(i + 1)));
            }
            i = i + 1;
        }
        proof {
            assert(vs@.take(vs@.len() as int) =~= vs@);
        }
        r
    }

    /// Gives up the reference that a value holds.
    pub fn drop_value(&mut self, v: Value)
        requires
            old(self)@.wf(),
            old(self)@.can_drop(v),
        ensures
            final(self)@.wf(),
            final(self)@ == (HeapModel {
                entries: old(self)@.dropped(v).entries,
                free: old(self)@.dropped(v).free,
                tracker: final(self)@.tracker,
                ..old(self)@
            }),
            told_of_frees(old(self)@.tracker, old(self)@.dropped(v).sizes, final(self)@.tracker),
    {
        proof {
            assert(seq![v] =~= Seq::<Value>::empty().push(v));
            lemma_refs_push(Seq::empty(), v);
        }
        if let Value::Ref(id) = v {
            proof {
                assert(refs(seq![v]) =~= seq![id]);
            }
            self.dec_ref(id);
        } else {
            proof {
                assert(refs(seq![v]) =~= Seq::empty());
            }
        }
    }

    /// Takes back the counts of some values that were counted on top of `start`.
    pub(crate) fn uncount_values(&mut self, vs: &[Value], start: Ghost<Entries>, ids: Ghost<Seq<HeapId>>)
        requires
            old(self)@.wf(),
            counted(start@),
            live(start@, HeapId(EMPTY_TUPLE_SLOT)),
            all_live(start@, refs(vs@)),
            bumped(start@, old(self)@.entries, ids@ + refs(vs@)),
        ensures
            final(self)@.wf(),
            final(self)@ == old(self)@.with_entries(final(self)@.entries),
            bumped(start@, final(self)@.entries, ids@),
    {
        let mut i: usize = vs.len();
        proof {
            assert(vs@.take(vs@.len() as int) =~= vs@);
        }
        while i > 0
            invariant
                i <= vs@.len(),
                self@.wf(),
                counted(start@),
                live(start@, HeapId(EMPTY_TUPLE_SLOT)),
                all_live(start@, refs(vs@)),
                self@ == old(self)@.with_entries(self@.entries),
                bumped(start@, self@.entries, ids@ + refs(vs@.take(i as int))),
            decreases i,
        {
            i = i - 1;
            let v: Value = vs[i];
            let ghost before = self@;
            let ghost head = vs@.take(i as int);
            proof {
                assert(vs@.take(i + 1) =~= head + seq![v]);
                lemma_refs_concat(head, seq![v]);
                assert(ids@ + refs(vs@.take(i + 1)) =~= ids@ + refs(head) + refs(seq![v]));
                if let Value::Ref(id) = v {
                    assert(refs(vs@).contains(id)) by {
                        lemma_ref_in_refs(vs@, i as int);
                    }
                    let k = choose|k: int| 0 <= k < refs(vs@).len() && refs(vs@)[k] == id;
                    assert(live(start@, refs(vs@)[k]));
                }
                lemma_uncounted(start@, before, ids@ + refs(head), v);
            }
            self.drop_value(v);
            proof {
                assert(self@ =~= old(self)@.with_entries(self@.entries));
            }
        }
        proof {
            assert(vs@.take(0) =~= Seq::empty());
            assert(ids@ + refs(vs@.take(0)) =~= ids@);
        }
    }

    /// Gives up a value that one holds.
    pub fn discard(&mut self, v: Value)
        requires
            old(self)@.wf(),
            covers(old(self)@.entries, refs(seq![v])),
        ensures
            old(self)@.gave_up(final(self)@, refs(seq![v])),
            old(self)@.released(final(self)@, refs(seq![v])),
    {
        proof {
            lemma_can_drop(self@, v);
        }
        self.drop_value(v);
        proof {
            assert(old(self)@.released(self@, refs(seq![v])));
        }
    }

    /// Gives up values that one holds, the first one first.
    pub fn discard_all(&mut self, vs: &[Value])
        requires
            old(self)@.wf(),
            covers(old(self)@.entries, refs(vs@)),
        ensures
            old(self)@.gave_up(final(self)@, refs(vs@)),
            old(self)@.released(final(self)@, refs(vs@.reverse())),
    {
        let mut i: usize = 0;
        proof {
            assert(vs@.take(0) =~= Seq::empty());
            assert(vs@.take(0).reverse() =~= Seq::empty());
            lemma_covers_part(self@.entries, refs(vs@), Seq::empty());
            lemma_model_gave_up_nothing(self@);
        }
        while i < vs.len()
            invariant
                i <= vs@.len(),
                covers(old(self)@.entries, refs(vs@)),
                old(self)@.gave_up(self@, refs(vs@.take(i as int))),
                old(self)@.released(self@, refs(vs@.take(i as int).reverse())),
            decreases vs.len() - i,
        {
            let ghost before = self@;
            let v: Value = vs[i];
            proof {
                let head = vs@.take(i as int);
                assert(vs@.take(i + 1) =~= head + seq![v]);
                lemma_refs_concat(head, seq![v]);
                assert forall|x: HeapId| #[trigger]
                    outside(before.entries, x) >= tally(refs(seq![v]), x) + kept(x) by {
                    assert(outside(old(self)@.entries, x) >= tally(refs(vs@), x) + kept(x));
                    lemma_tally_concat(refs(head), refs(seq![v]), x);
                    assert(vs@ =~= vs@.take(i + 1) + vs@.skip(i + 1));
                    lemma_refs_concat(vs@.take(i + 1), vs@.skip(i + 1));
                    lemma_tally_concat(refs(vs@.take(i + 1)), refs(vs@.skip(i + 1)), x);
                }
            }
            self.discard(v);
            proof {
                let head = vs@.take(i as int);
                lemma_model_gave_up_trans(old(self)@, before, self@, refs(head), refs(seq![v]));
                lemma_released_trans(old(self)@, before, self@, refs(head.reverse()), refs(seq![v]));
                assert(vs@.take(i + 1).reverse() =~= seq![v] + head.reverse());
                lemma_refs_concat(seq![v], head.reverse());
            }
            i = i + 1;
        }
        proof {
            assert(vs@.take(vs@.len() as int) =~= vs@);
        }
    }

    /// Gets the value inside a cell, cloning it with proper refcount handling.
    pub fn get_cell_value(&mut self, id: HeapId) -> (r: Value)
        requires
            old(self)@.wf(),
            readable(old(self)@.entries, id),
            data_at(old(self)@.entries, id) matches HeapData::Cell(c) && (c.0 matches Value::Ref(v) ==> live(
                old(self)@.entries,
                v,
            ) && count_at(old(self)@.entries, v) < usize::MAX),
        ensures
            data_at(old(self)@.entries, id) == HeapData::Cell(CellValue(r)),
            final(self)@.wf(),
            bumped(old(self)@.entries, final(self)@.entries, refs(seq![r])),
            final(self)@ == old(self)@.with_entries(final(self)@.entries),
    {
        let v: Value = match self.get(id) {
            HeapData::Cell(c) => c.0,
            _ => vstd::pervasive::unreached(),
        };
        self.clone_value(v)
    }

    /// Sets the value inside a cell, properly dropping the old value.
    pub fn set_cell_value(&mut self, id: HeapId, value: Value)
        requires
            old(self)@.wf(),
            readable(old(self)@.entries, id),
            data_at(old(self)@.entries, id) matches HeapData::Cell(c) && old(self)@.with_data(
                id,
                HeapData::Cell(CellValue(value)),
            ).can_drop(c.0),
        ensures
            final(self)@.wf(),
            data_at(old(self)@.entries, id) matches HeapData::Cell(c) && {
                let set = old(self)@.with_data(id, HeapData::Cell(CellValue(value)));
                &&& final(self)@ == (HeapModel {
                    entries: set.dropped(c.0).entries,
                    free: set.dropped(c.0).free,
                    tracker: final(self)@.tracker,
                    ..old(self)@
                })
                &&& told_of_frees(old(self)@.tracker, set.dropped(c.0).sizes, final(self)@.tracker)
            },
    {
        proof {
            let v = self@.entries[id.0 as int]->0;
            lemma_wf_update(self@, id, HeapValue { data: Some(HeapData::Cell(CellValue(value))), ..v });
        }
        let mut previous: Value = value;
        if let HeapDataMut::Cell(c) = self.get_mut(id) {
            previous = c.0;
            *c = CellValue(value);
        }
        proof {
            assert(self@ =~= old(self)@.with_data(id, HeapData::Cell(CellValue(value))));
        }
        self.drop_value(previous);
    }

    /// Helper for List in-place add: extends the destination vec with items from a heap list.
    ///
    /// Returns `true` if successful, `false` if the source ID is not a List.
    pub fn iadd_extend_list(&mut self, source_id: HeapId, dest: &mut Vec<Value>) -> (r: bool)
        requires
            old(self)@.wf(),
            readable(old(self)@.entries, source_id),
            data_at(old(self)@.entries, source_id) matches HeapData::List(l) ==> all_live(
                old(self)@.entries,
                refs(l.items@),
            ) && old(self)@.room(l.items@.len()),
        ensures
            final(self)@.wf(),
            old(self)@.extends(final(self)@, source_id, old(dest)@, final(dest)@, r),
            !r ==> *final(dest) == *old(dest),
    {
        let items: Vec<Value> = match self.get(source_id) {
            HeapData::List(list) => crate::function::copy_vec(list.as_slice()),
            _ => {
                return false;
            },
        };
        let mut cloned: Vec<Value> = self.clone_values(items.as_slice());
        dest.append(&mut cloned);
        true
    }
}

pub proof fn lemma_ref_in_refs(vs: Seq<Value>, i: int)
    requires
        0 <= i < vs.len(),
        vs[i] is Ref,
    ensures
        refs(vs).contains(vs[i]->Ref_0),
    decreases vs.len(),
{
    let id = vs[i]->Ref_0;
    lemma_holds_ge(vs, i, id);
    crate::value::lemma_tally_positive(refs(vs), id);
}

pub proof fn lemma_tally_bound(ids: Seq<HeapId>, id: HeapId)
    ensures
        tally(ids, id) <= ids.len(),
    decreases ids.len(),
{
    if ids.len() > 0 {
        lemma_tally_bound(ids.drop_last(), id);
    }
}

pub proof fn lemma_refs_len(vs: Seq<Value>)
    ensures
        refs(vs).len() <= vs.len(),
    decreases vs.len(),
{
    if vs.len() > 0 {
        lemma_refs_len(vs.drop_last());
    }
}

/// A cell that is held gives back the value that it was set to, and keeps it until it
/// is set again.
pub proof fn cells_give_back_what_was_set<T: ResourceTracker>(
    m: HeapModel<T>,
    id: HeapId,
    previous: Value,
    value: Value,
)
    requires
        m.wf(),
        readable(m.entries, id),
        data_at(m.entries, id) == HeapData::Cell(CellValue(previous)),
        covers(m.with_data(id, HeapData::Cell(CellValue(value))).entries, refs(seq![previous])),
        outside(m.with_data(id, HeapData::Cell(CellValue(value))).entries, id) > holds(seq![previous], id),
    ensures
        data_at(m.with_data(id, HeapData::Cell(CellValue(value))).dropped(previous).entries, id) == HeapData::Cell(
            CellValue(value),
        ),
{
    let set = m.with_data(id, HeapData::Cell(CellValue(value)));
    let after = set.dropped(previous).entries;
    let v = m.entries[id.0 as int]->0;
    lemma_wf_update(m, id, HeapValue { data: Some(HeapData::Cell(CellValue(value))), ..v });
    lemma_release(set.entries, set.free, Seq::empty(), refs(seq![previous]));
    lemma_release_shape(set.entries, set.free, Seq::empty(), refs(seq![previous]));
    assert(outside(after, id) == outside(set.entries, id) - tally(refs(seq![previous]), id));
    assert(shrunk(set.entries[id.0 as int], after[id.0 as int]));
}

/// Dropping a reference that was counted on top of others frees nothing.
pub proof fn lemma_uncounted<T: ResourceTracker>(start: Entries, m: HeapModel<T>, ids: Seq<HeapId>, v: Value)
    requires
        counted(start),
        start.len() <= usize::MAX,
        live(start, HeapId(EMPTY_TUPLE_SLOT)),
        v matches Value::Ref(id) ==> live(start, id),
        bumped(start, m.entries, ids + refs(seq![v])),
    ensures
        m.can_drop(v),
        bumped(start, m.dropped(v).entries, ids),
        m.dropped(v).free == m.free,
        m.dropped(v).sizes.len() == 0,
{
    let one = refs(seq![v]);
    let b = m.entries;
    assert(seq![v] =~= Seq::<Value>::empty().push(v));
    lemma_refs_push(Seq::empty(), v);
    assert forall|i: int| 0 <= i < start.len() implies slot_bumped(
        start[i],
        #[trigger] b[i],
        tally(ids, HeapId(i as usize)) + tally(one, HeapId(i as usize)),
    ) by {
        lemma_tally_concat(ids, one, HeapId(i as usize));
    }
    if let Value::Ref(id) = v {
        assert(one =~= seq![id]);
        let i = id.0 as int;
        lemma_holds_one(v, id);
        assert(start[i] is Some);
        assert(slot_bumped(start[i], b[i], tally(ids, HeapId(i as usize)) + tally(one, HeapId(i as usize))));
        let next = b.update(i, Some(one_less(b[i]->0)));
        assert forall|k: int| 0 <= k < start.len() implies slot_bumped(
            start[k],
            #[trigger] next[k],
            tally(ids, HeapId(k as usize)),
        ) by {
            lemma_holds_one(v, HeapId(k as usize));
            assert(slot_bumped(start[k], b[k], tally(ids, HeapId(k as usize)) + tally(one, HeapId(k as usize))));
        }
        assert(one.drop_last() =~= Seq::empty());
        assert(release(next, m.free, Seq::empty(), one.drop_last()).entries == next);
        assert(next[EMPTY_TUPLE_SLOT as int] is Some);
    } else {
        assert(one =~= Seq::empty());
        assert(b[EMPTY_TUPLE_SLOT as int] is Some);
    }
}

/// Entries without one more reference are the same.
pub proof fn lemma_bumped_by_nothing(a: Entries, b: Entries)
    requires
        bumped(a, b, Seq::empty()),
    ensures
        b == a,
{
    assert forall|k: int| 0 <= k < a.len() implies b[k] == #[trigger] a[k] by {
        assert(slot_bumped(a[k], b[k], tally(Seq::empty(), HeapId(k as usize))));
    }
    assert(b =~= a);
}

} // verus!
