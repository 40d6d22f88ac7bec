//! Cells for variables that inner functions capture.

use crate::growth::{
    grown, lemma_allocate_step, lemma_bumped_grown, lemma_bumped_room, lemma_grown_trans, lemma_less_room,
};
use crate::heap::{Heap, HeapModel, allocation_balances, fresh};
use crate::heap_data::{CellValue, HeapData};
use crate::heap_model::{live, outside};
use crate::heap_ops::{
    all_live, bumped, lemma_bumped, lemma_bumped_by_nothing, lemma_bumped_nothing, lemma_bumped_push, lemma_tally_bound,
    lemma_uncounted, slot_bumped,
};
use crate::resource::{ResourceError, ResourceTracker};
use crate::value::{HeapId, Value, holds1, lemma_holds_one, lemma_refs_push, lemma_tally_push, refs, tally};
use vstd::prelude::*;

verus! {

/// What a cell starts with: a parameter's value, or nothing.
pub open spec fn cell_start(ns: Seq<Value>, index: Option<usize>) -> Value {
    match index {
        Some(p) => ns[p as int],
        None => Value::Undefined,
    }
}

/// References to some entries, as values.
pub open spec fn ref_values(ids: Seq<HeapId>) -> Seq<Value> {
    ids.map_values(|id: HeapId| Value::Ref(id))
}

/// May making a cell that starts with `v` turn the heap into `after` and give `id`?
///
/// The value is counted once more for the cell.
pub open spec fn adds_cell<T: ResourceTracker>(before: HeapModel<T>, after: HeapModel<T>, v: Value, id: HeapId) -> bool {
    exists|counted: HeapModel<T>|
        {
            &&& #[trigger] bumped(before.entries, counted.entries, refs(seq![v]))
            &&& counted == before.with_entries(counted.entries)
            &&& counted.allocates(after, HeapData::Cell(CellValue(v)), Ok(id))
        }
}

/// May making some cells, one after the other, turn the heap into `after`?
pub open spec fn adds_cells<T: ResourceTracker>(
    before: HeapModel<T>,
    after: HeapModel<T>,
    ns: Seq<Value>,
    indices: Seq<Option<usize>>,
    made: Seq<HeapId>,
) -> bool
    decreases made.len(),
{
    if made.len() == 0 {
        after == before
    } else {
        exists|mid: HeapModel<T>|
            {
                &&& adds_cells(before, mid, ns, indices, made.drop_last())
                &&& #[trigger] adds_cell(mid, after, cell_start(ns, indices[made.len() - 1]), made.last())
            }
    }
}

/// Does the tracker refuse to make a cell, so that nothing else changes?
pub open spec fn refuses_cell<T: ResourceTracker>(
    before: HeapModel<T>,
    after: HeapModel<T>,
    v: Value,
    e: ResourceError,
) -> bool {
    before.allocates(after, HeapData::Cell(CellValue(v)), Err(e))
}

/// May making cells for the first captured variables turn the heap into `after`?
///
/// Each cell is a new entry that is counted once. Where the tracker refuses one, it is
/// left out, with all that follow.
pub open spec fn made_cells<T: ResourceTracker>(
    before: HeapModel<T>,
    after: HeapModel<T>,
    ns: Seq<Value>,
    indices: Seq<Option<usize>>,
    made: Seq<HeapId>,
    error: Option<ResourceError>,
) -> bool {
    &&& after.wf()
    &&& after.recursion_depth == before.recursion_depth
    &&& grown(before.entries, after.entries)
    &&& after.entries.len() <= before.entries.len() + made.len()
    &&& match error {
        None => made.len() == indices.len() && adds_cells(before, after, ns, indices, made),
        Some(e) => made.len() < indices.len() && exists|mid: HeapModel<T>|
            {
                &&& adds_cells(before, mid, ns, indices, made)
                &&& #[trigger] refuses_cell(mid, after, cell_start(ns, indices[made.len() as int]), e)
            },
    }
    &&& made.no_duplicates()
    &&& forall|i: int|
        0 <= i < made.len() ==> {
            &&& live(after.entries, #[trigger] made[i])
            &&& !live(before.entries, made[i])
            &&& after.entries[made[i].0 as int] == Some(fresh(HeapData::Cell(CellValue(cell_start(ns, indices[i])))))
        }
    &&& forall|x: HeapId| #[trigger] outside(after.entries, x) == outside(before.entries, x) + tally(made, x)
}

/// Makes cells for variables captured by nested functions, and appends references
/// to them to the namespace.
///
/// Returns the cells that were made, and the error that stopped it, if any.
#[verifier::rlimit(30)]
pub(crate) fn make_cells<T: ResourceTracker>(
    ns: &mut Vec<Value>,
    indices: &Vec<Option<usize>>,
    heap: &mut Heap<T>,
    more: Ghost<nat>,
) -> (r: (Vec<HeapId>, Option<ResourceError>))
    requires
        old(heap)@.wf(),
        old(heap)@.room(2 * indices@.len() + more@),
        old(heap)@.entries.len() + indices@.len() <= usize::MAX,
        forall|i: int|
            0 <= i < indices@.len() ==> (#[trigger] indices@[i] matches Some(p) ==> p < old(ns)@.len() && (
            old(ns)@[p as int] matches Value::Ref(id) ==> live(old(heap)@.entries, id))),
    ensures
        final(ns)@ == old(ns)@ + ref_values(r.0@),
        made_cells(old(heap)@, final(heap)@, old(ns)@, indices@, r.0@, r.1),
        final(heap)@.room(more@),
{
    let ghost start = ns@;
    let mut made: Vec<HeapId> = Vec::with_capacity(indices.len());
    let mut i: usize = 0;
    proof {
        assert(ns@ =~= start + ref_values(made@));
        assert(heap@.entries[0] is Some);
    }
    while i < indices.len()
        invariant
            i <= indices@.len(),
            start == old(ns)@,
            made@.len() == i,
            ns@ == start + ref_values(made@),
            heap@.wf(),
            heap@.recursion_depth == old(heap)@.recursion_depth,
            heap@.room((2 * (indices@.len() - i) + more@) as nat),
            2 * indices@.len() + more@ <= usize::MAX,
            old(heap)@.entries.len() + indices@.len() <= usize::MAX,
            heap@.entries.len() <= old(heap)@.entries.len() + i,
            forall|k: int|
                0 <= k < indices@.len() ==> (#[trigger] indices@[k] matches Some(p) ==> p < start.len() && (
                start[p as int] matches Value::Ref(id) ==> live(old(heap)@.entries, id))),
            grown(old(heap)@.entries, heap@.entries),
            made@.no_duplicates(),
            forall|k: int|
                0 <= k < i ==> {
                    &&& live(heap@.entries, #[trigger] made@[k])
                    &&& !live(old(heap)@.entries, made@[k])
                    &&& heap@.entries[made@[k].0 as int] == Some(
                        fresh(HeapData::Cell(CellValue(cell_start(start, indices@[k])))),
                    )
                },
            forall|x: HeapId|
                #[trigger] outside(heap@.entries, x) == outside(old(heap)@.entries, x) + tally(made@, x),
            adds_cells(old(heap)@, heap@, start, indices@, made@),
        decreases indices.len() - i,
    {
        let ghost before = heap@;
        let ghost so_far = made@;
        let ghost left = (2 * (indices@.len() - i) + more@) as nat;
        let v: Value = match indices[i] {
            Some(p) => {
                proof {
                    assert(indices@[i as int] == Some(p));
                }
                ns[p]
            },
            None => Value::Undefined,
        };
        proof {
            assert(v == cell_start(start, indices@[i as int]));
            if let Value::Ref(id) = v {
                assert(live(old(heap)@.entries, id));
                assert(live(before.entries, id));
                assert(before.entries[id.0 as int] is Some);
            }
        }
        let copy: Value = heap.clone_value(v);
        let ghost cloned = heap@;
        proof {
            lemma_counted(before, cloned, v, left);
        }
        let data: HeapData = HeapData::Cell(CellValue(copy));
        match heap.allocate(data) {
            Ok(id) => {
                proof {
                    lemma_allocate_step(cloned, heap@, HeapData::Cell(CellValue(v)), id, (left - 1) as nat);
                    lemma_grown_trans(before.entries, cloned.entries, heap@.entries);
                    lemma_grown_trans(old(heap)@.entries, before.entries, heap@.entries);
                    assert forall|x: HeapId| #[trigger]
                        outside(heap@.entries, x) == outside(old(heap)@.entries, x) + tally(so_far.push(id), x) by {
                        lemma_tally_push(so_far, id, x);
                        lemma_holds_one(v, x);
                        assert(outside(cloned.entries, x) == outside(before.entries, x) + holds1(v, x));
                        assert(outside(before.entries, x) == outside(old(heap)@.entries, x) + tally(so_far, x));
                    }
                    assert(!so_far.contains(id)) by {
                        if so_far.contains(id) {
                            let k = choose|k: int| 0 <= k < so_far.len() && so_far[k] == id;
                            assert(live(before.entries, so_far[k]));
                            assert(live(cloned.entries, id));
                        }
                    }
                    assert(!live(old(heap)@.entries, id)) by {
                        if live(old(heap)@.entries, id) {
                            assert(live(before.entries, id));
                            assert(live(cloned.entries, id));
                        }
                    }
                    assert forall|k: int| 0 <= k < so_far.len() implies live(heap@.entries, #[trigger] so_far[k])
                        && heap@.entries[so_far[k].0 as int] == Some(
                        fresh(HeapData::Cell(CellValue(cell_start(start, indices@[k])))),
                    ) by {
                        lemma_untouched(old(heap)@, before, cloned, v, so_far[k]);
                        allocation_balances(cloned, HeapData::Cell(CellValue(v)), heap@.tracker);
                        assert(live(cloned.entries, so_far[k]));
                        assert(cloned.entries[so_far[k].0 as int] == before.entries[so_far[k].0 as int]);
                        assert(so_far.contains(so_far[k]));
                    }
                }
                made.push(id);
                ns.push(Value::Ref(id));
                proof {
                    assert(bumped(before.entries, cloned.entries, refs(seq![v])));
                    assert(made@.drop_last() =~= so_far);
                    assert(adds_cells(old(heap)@, before, start, indices@, made@.drop_last()));
                    assert(adds_cell(before, heap@, cell_start(start, indices@[made@.len() - 1]), made@.last()));
                    assert(adds_cells(old(heap)@, heap@, start, indices@, made@));
                    assert(ref_values(made@) =~= ref_values(so_far).push(Value::Ref(id)));
                    assert(ns@ =~= start + ref_values(made@));
                    assert forall|k: int| 0 <= k < made@.len() implies {
                        &&& live(heap@.entries, #[trigger] made@[k])
                        &&& !live(old(heap)@.entries, made@[k])
                        &&& heap@.entries[made@[k].0 as int] == Some(
                            fresh(HeapData::Cell(CellValue(cell_start(start, indices@[k])))),
                        )
                    } by {
                        if k < so_far.len() {
                            assert(made@[k] == so_far[k]);
                        }
                    }
                }
            },
            Err(e) => {
                let ghost refused = heap@;
                proof {
                    lemma_copy_dropped(before, cloned, refused, v);
                }
                heap.drop_value(copy);
                proof {
                    lemma_less_room(before, left, more@);
                    assert(heap@ =~= HeapModel { tracker: refused.tracker, ..before });
                    assert(refuses_cell(before, heap@, v, e));
                }
                return (made, Some(e));
            },
        }
        i = i + 1;
    }
    (made, None)
}

/// Dropping a copy of a value that is still counted puts the count back.
proof fn lemma_copy_dropped<T: ResourceTracker>(a: HeapModel<T>, b: HeapModel<T>, c: HeapModel<T>, v: Value)
    requires
        a.wf(),
        v matches Value::Ref(id) ==> live(a.entries, id),
        bumped(a.entries, b.entries, refs(seq![v])),
        c.entries == b.entries,
        c.free == a.free,
    ensures
        c.can_drop(v),
        c.dropped(v).entries == a.entries,
        c.dropped(v).free == a.free,
        c.dropped(v).sizes.len() == 0,
{
    assert(Seq::empty() + refs(seq![v]) =~= refs(seq![v]));
    lemma_uncounted(a.entries, c, Seq::empty(), v);
    lemma_bumped_by_nothing(a.entries, c.dropped(v).entries);
}

/// Counting a reference to an entry that was there from the start leaves the others alone.
proof fn lemma_untouched<T: ResourceTracker>(
    start: HeapModel<T>,
    a: HeapModel<T>,
    b: HeapModel<T>,
    v: Value,
    id: HeapId,
)
    requires
        v matches Value::Ref(x) ==> live(start.entries, x),
        !live(start.entries, id),
        live(a.entries, id),
        bumped(a.entries, b.entries, refs(seq![v])),
    ensures
        b.entries[id.0 as int] == a.entries[id.0 as int],
{
    let ids = refs(seq![v]);
    assert(seq![v] =~= Seq::<Value>::empty().push(v));
    lemma_refs_push(Seq::empty(), v);
    assert(slot_bumped(a.entries[id.0 as int], b.entries[id.0 as int], tally(ids, HeapId(id.0 as usize))));
    lemma_holds_one(v, id);
}

/// Counting one reference, in a heap that need not be sound.
proof fn lemma_counted<T: ResourceTracker>(a: HeapModel<T>, b: HeapModel<T>, v: Value, n: nat)
    requires
        a.wf(),
        a.room(n),
        n > 0,
        v matches Value::Ref(id) ==> live(a.entries, id),
        bumped(a.entries, b.entries, refs(seq![v])),
    ensures
        b.room((n - 1) as nat),
        grown(a.entries, b.entries),
        forall|x: HeapId| #[trigger] outside(b.entries, x) == outside(a.entries, x) + holds1(v, x),
        forall|x: HeapId| #[trigger] live(b.entries, x) == live(a.entries, x),
{
    let ids = refs(seq![v]);
    assert(seq![v] =~= Seq::<Value>::empty().push(v));
    lemma_refs_push(Seq::empty(), v);
    assert(all_live(a.entries, ids));
    lemma_bumped(a.entries, b.entries, ids);
    lemma_bumped_grown(a.entries, b.entries, ids);
    assert forall|x: HeapId| #[trigger] outside(b.entries, x) == outside(a.entries, x) + holds1(v, x) by {
        lemma_holds_one(v, x);
        assert(outside(b.entries, x) == outside(a.entries, x) + tally(ids, x));
    }
    assert(ids.len() <= 1);
    lemma_bumped_room(a, b, ids, n);
    lemma_less_room(b, (n - ids.len()) as nat, (n - 1) as nat);
}

/// Counts one more reference to each of some cells.
pub fn count_cells<T: ResourceTracker>(cells: &[HeapId], heap: &mut Heap<T>)
    requires
        old(heap)@.wf(),
        old(heap)@.room(cells@.len()),
        all_live(old(heap)@.entries, cells@),
    ensures
        final(heap)@.wf(),
        bumped(old(heap)@.entries, final(heap)@.entries, cells@),
        final(heap)@ == old(heap)@.with_entries(final(heap)@.entries),
{
    let mut i: usize = 0;
    proof {
        lemma_bumped_nothing(heap@.entries);
        assert(cells@.take(0) =~= Seq::empty());
    }
    while i < cells.len()
        invariant
            i <= cells@.len(),
            old(heap)@.wf(),
            old(heap)@.room(cells@.len()),
            all_live(old(heap)@.entries, cells@),
            heap@.wf(),
            bumped(old(heap)@.entries, heap@.entries, cells@.take(i as int)),
            heap@ == old(heap)@.with_entries(heap@.entries),
        decreases cells.len() - i,
    {
        let id: HeapId = cells[i];
        let ghost head = cells@.take(i as int);
        proof {
            assert(live(old(heap)@.entries, cells@[i as int]));
            let slot = id.0 as int;
            assert(slot_bumped(old(heap)@.entries[slot], heap@.entries[slot], tally(head, HeapId(slot as usize))));
            lemma_tally_bound(head, id);
            lemma_bumped_push(old(heap)@.entries, heap@.entries, head, id);
            assert(cells@.take(i + 1) =~= head.push(id));
        }
        heap.inc_ref(id);
        i = i + 1;
    }
    proof {
        assert(cells@.take(cells@.len() as int) =~= cells@);
    }
}

/// Appends references to some cells to a list of values.
pub fn push_cells(vs: &mut Vec<Value>, cells: &[HeapId])
    ensures
        final(vs)@ == old(vs)@ + ref_values(cells@),
{
    let mut i: usize = 0;
    proof {
        assert(vs@ =~= old(vs)@ + ref_values(cells@.take(0)));
    }
    while i < cells.len()
        invariant
            i <= cells@.len(),
            vs@ == old(vs)@ + ref_values(cells@.take(i as int)),
        decreases cells.len() - i,
    {
        vs.push(Value::Ref(cells[i]));
        proof {
            let head = cells@.take(i as int);
            assert(cells@.take(i + 1) =~= head.push(cells@[i as int]));
            assert(ref_values(cells@.take(i + 1)) =~= ref_values(head).push(Value::Ref(cells@[i as int])));
            assert(vs@ =~= old(vs)@ + ref_values(cells@.take(i + 1)));
        }
        i = i + 1;
    }
    proof {
        assert(cells@.take(cells@.len() as int) =~= cells@);
    }
}

/// A namespace with its remaining slots left undefined.
pub open spec fn padded(ns: Seq<Value>, size: nat) -> Seq<Value> {
    ns + Seq::new((size - ns.len()) as nat, |i: int| Value::Undefined)
}

/// Fills the remaining slots of a namespace with undefined values.
pub fn pad(ns: &mut Vec<Value>, size: usize)
    requires
        old(ns)@.len() <= size,
    ensures
        final(ns)@ == padded(old(ns)@, size as nat),
{
    while ns.len() < size
        invariant
            old(ns)@.len() <= ns@.len() <= size,
            ns@.take(old(ns)@.len() as int) == old(ns)@,
            forall|i: int| old(ns)@.len() <= i < ns@.len() ==> #[trigger] ns@[i] == Value::Undefined,
        decreases size - ns.len(),
    {
        let ghost before = ns@;
        ns.push(Value::Undefined);
        proof {
            assert(ns@.take(old(ns)@.len() as int) =~= before.take(old(ns)@.len() as int));
        }
    }
    proof {
        assert forall|i: int| 0 <= i < old(ns)@.len() implies #[trigger] ns@[i] == old(ns)@[i] by {
            assert(ns@.take(old(ns)@.len() as int)[i] == old(ns)@[i]);
        }
        assert(ns@ =~= padded(old(ns)@, size as nat));
    }
}

} // verus!
