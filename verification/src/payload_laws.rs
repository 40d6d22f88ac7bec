//! What payloads hold, said field by field.

use crate::asyncio::{GatherItem, coroutine_ids, present};
use crate::heap::{EMPTY_TUPLE_SLOT, HeapModel};
use crate::heap_access::reachability_starts_at_roots;
use crate::heap_data::{HeapData, child_ids, holds_refs};
use crate::heap_model::{Entries, data_at, edge, live, reached, readable};
use crate::resource::ResourceTracker;
use crate::types::mappings::{DictEntry, flat};
use crate::value::{HeapId, Value, holds, is_ref, lemma_holds_push, refs, tally};
use vstd::prelude::*;
use vstd::seq_lib::to_multiset_build;

verus! {

/// The keys of some entries, one by one.
pub open spec fn key_column(es: Seq<DictEntry>) -> Seq<Value> {
    Seq::new(es.len(), |i: int| es[i].key)
}

/// The values of some entries, one by one.
pub open spec fn value_column(es: Seq<DictEntry>) -> Seq<Value> {
    Seq::new(es.len(), |i: int| es[i].value)
}

/// The references that values hold to an entry are the values that are references to it.
pub proof fn values_hold_their_references(vs: Seq<Value>, x: HeapId)
    ensures
        holds(vs, x) == vs.to_multiset().count(Value::Ref(x)),
    decreases vs.len(),
{
    broadcast use vstd::multiset::group_multiset_axioms;

    if vs.len() == 0 {
        lemma_nothing_counted(vs, Value::Ref(x));
    } else {
        let head = vs.drop_last();
        values_hold_their_references(head, x);
        assert(head.push(vs.last()) =~= vs);
        to_multiset_build(head, vs.last());
        lemma_holds_push(head, vs.last(), x);
    }
}

/// A tally counts how often an id occurs.
pub proof fn tallies_count_occurrences(ids: Seq<HeapId>, x: HeapId)
    ensures
        tally(ids, x) == ids.to_multiset().count(x),
    decreases ids.len(),
{
    broadcast use vstd::multiset::group_multiset_axioms;

    if ids.len() == 0 {
        lemma_nothing_counted(ids, x);
    } else {
        let head = ids.drop_last();
        tallies_count_occurrences(head, x);
        assert(head.push(ids.last()) =~= ids);
        to_multiset_build(head, ids.last());
    }
}

proof fn lemma_nothing_counted<A>(s: Seq<A>, a: A)
    requires
        s.len() == 0,
    ensures
        s.to_multiset().count(a) == 0,
{
    broadcast use vstd::seq_lib::group_to_multiset_ensures;

    assert(!s.contains(a));
}

pub proof fn lemma_flat_columns(es: Seq<DictEntry>, x: HeapId)
    ensures
        holds(flat(es), x) == key_column(es).to_multiset().count(Value::Ref(x)) + value_column(
            es,
        ).to_multiset().count(Value::Ref(x)),
    decreases es.len(),
{
    broadcast use vstd::multiset::group_multiset_axioms;

    if es.len() == 0 {
        values_hold_their_references(flat(es), x);
        lemma_nothing_counted(flat(es), Value::Ref(x));
        lemma_nothing_counted(key_column(es), Value::Ref(x));
        lemma_nothing_counted(value_column(es), Value::Ref(x));
    } else {
        let head = es.drop_last();
        lemma_flat_columns(head, x);
        assert(key_column(head).push(es.last().key) =~= key_column(es));
        assert(value_column(head).push(es.last().value) =~= value_column(es));
        to_multiset_build(key_column(head), es.last().key);
        to_multiset_build(value_column(head), es.last().value);
        lemma_holds_push(flat(head), es.last().key, x);
        lemma_holds_push(flat(head).push(es.last().key), es.last().value, x);
    }
}

proof fn lemma_coroutines_counted(items: Seq<GatherItem>, x: HeapId)
    ensures
        tally(coroutine_ids(items), x) == items.to_multiset().count(GatherItem::Coroutine(x)),
    decreases items.len(),
{
    broadcast use vstd::multiset::group_multiset_axioms;

    if items.len() == 0 {
        tallies_count_occurrences(coroutine_ids(items), x);
        lemma_nothing_counted(coroutine_ids(items), x);
        lemma_nothing_counted(items, GatherItem::Coroutine(x));
    } else {
        let head = items.drop_last();
        lemma_coroutines_counted(head, x);
        assert(head.push(items.last()) =~= items);
        to_multiset_build(head, items.last());
        if let GatherItem::Coroutine(id) = items.last() {
            crate::value::lemma_tally_push(coroutine_ids(head), id, x);
        }
    }
}

proof fn lemma_results_counted(vs: Seq<Option<Value>>, x: HeapId)
    ensures
        holds(present(vs), x) == vs.to_multiset().count(Some(Value::Ref(x))),
    decreases vs.len(),
{
    broadcast use vstd::multiset::group_multiset_axioms;

    if vs.len() == 0 {
        values_hold_their_references(present(vs), x);
        lemma_nothing_counted(present(vs), Value::Ref(x));
        lemma_nothing_counted(vs, Some(Value::Ref(x)));
    } else {
        let head = vs.drop_last();
        lemma_results_counted(head, x);
        assert(head.push(vs.last()) =~= vs);
        to_multiset_build(head, vs.last());
        if let Some(v) = vs.last() {
            lemma_holds_push(present(head), v, x);
        }
    }
}

/// Every reference that is stored in a field of a payload is among the payload's
/// children, as often as it is stored; and a payload has no other children.
pub proof fn children_are_the_stored_references(data: HeapData, x: HeapId)
    requires
        data matches HeapData::NamedTupleFactory(f) ==> f.wf(),
    ensures
        child_ids(data).to_multiset().count(x) == match data {
            HeapData::List(l) => l.items@.to_multiset().count(Value::Ref(x)),
            HeapData::Tuple(t) => t@.to_multiset().count(Value::Ref(x)),
            HeapData::NamedTuple(nt) => nt.items@.to_multiset().count(Value::Ref(x)),
            HeapData::NamedTupleFactory(f) => f.defaults@.to_multiset().count(Value::Ref(x)),
            HeapData::Dict(d) => key_column(d.entries@).to_multiset().count(Value::Ref(x)) + value_column(
                d.entries@,
            ).to_multiset().count(Value::Ref(x)),
            HeapData::PySet(s) => s.storage.items@.to_multiset().count(Value::Ref(x)),
            HeapData::FrozenSet(s) => s.storage.items@.to_multiset().count(Value::Ref(x)),
            HeapData::Closure(c) => c.cells@.to_multiset().count(x) + c.defaults@.to_multiset().count(Value::Ref(x)),
            HeapData::FunctionDefaults(fd) => fd.defaults@.to_multiset().count(Value::Ref(x)),
            HeapData::Cell(c) => if c.0 == Value::Ref(x) { 1nat } else { 0nat },
            HeapData::Dataclass(dc) => key_column(dc.attrs.entries@).to_multiset().count(Value::Ref(x))
                + value_column(dc.attrs.entries@).to_multiset().count(Value::Ref(x)),
            HeapData::Iter(it) => if it.value == Value::Ref(x) { 1nat } else { 0nat },
            HeapData::Module(m) => key_column(m.attrs.entries@).to_multiset().count(Value::Ref(x)) + value_column(
                m.attrs.entries@,
            ).to_multiset().count(Value::Ref(x)),
            HeapData::Coroutine(c) => c.frame_cells@.to_multiset().count(x) + c.namespace@.to_multiset().count(
                Value::Ref(x),
            ),
            HeapData::GatherFuture(g) => g.items@.to_multiset().count(GatherItem::Coroutine(x))
                + g.results@.to_multiset().count(Some(Value::Ref(x))),
            HeapData::Str(_) | HeapData::Bytes(_) | HeapData::Range(_) | HeapData::Slice(_) | HeapData::Exception(_)
                | HeapData::LongInt(_) | HeapData::Class(_) | HeapData::Path(_) | HeapData::RePattern(_)
                | HeapData::ReMatch(_) | HeapData::ExtFunction(_) => 0nat,
        },
{
    broadcast use vstd::multiset::group_multiset_axioms;

    tallies_count_occurrences(child_ids(data), x);
    match data {
        HeapData::List(l) => values_hold_their_references(l.items@, x),
        HeapData::Tuple(t) => values_hold_their_references(t@, x),
        HeapData::NamedTuple(nt) => values_hold_their_references(nt.items@, x),
        HeapData::NamedTupleFactory(f) => {
            values_hold_their_references(f.defaults@, x);
            if !f.contains_refs {
                crate::value::lemma_no_refs(f.defaults@);
                lemma_nothing_counted(child_ids(data), x);
            }
        },
        HeapData::Dict(d) => lemma_flat_columns(d.entries@, x),
        HeapData::PySet(s) => values_hold_their_references(s.storage.items@, x),
        HeapData::FrozenSet(s) => values_hold_their_references(s.storage.items@, x),
        HeapData::Closure(c) => {
            crate::value::lemma_tally_concat(c.cells@, refs(c.defaults@), x);
            tallies_count_occurrences(c.cells@, x);
            values_hold_their_references(c.defaults@, x);
        },
        HeapData::FunctionDefaults(fd) => values_hold_their_references(fd.defaults@, x),
        HeapData::Cell(c) => crate::value::lemma_holds_one(c.0, x),
        HeapData::Dataclass(dc) => lemma_flat_columns(dc.attrs.entries@, x),
        HeapData::Iter(it) => crate::value::lemma_holds_one(it.value, x),
        HeapData::Module(m) => lemma_flat_columns(m.attrs.entries@, x),
        HeapData::Coroutine(c) => {
            crate::value::lemma_tally_concat(c.frame_cells@, refs(c.namespace@), x);
            tallies_count_occurrences(c.frame_cells@, x);
            values_hold_their_references(c.namespace@, x);
        },
        HeapData::GatherFuture(g) => {
            crate::value::lemma_tally_concat(coroutine_ids(g.items@), refs(present(g.results@)), x);
            lemma_coroutines_counted(g.items@, x);
            lemma_results_counted(g.results@, x);
        },
        _ => lemma_nothing_counted(child_ids(data), x),
    }
}

/// A payload is known to hold references exactly where it has children, and whatever can
/// have children is watched for cycles.
pub proof fn payloads_with_children_are_watched(data: HeapData)
    requires
        data matches HeapData::NamedTupleFactory(f) ==> f.wf(),
    ensures
        holds_refs(data) <==> exists|x: HeapId| child_ids(data).contains(x),
        (exists|x: HeapId| child_ids(data).contains(x)) ==> data.spec_gc_tracked(),
        data.spec_gc_tracked() ==> !(data is Str || data is Bytes || data is Range || data is Slice || data is Exception
            || data is LongInt || data is Class || data is Path || data is RePattern || data is ReMatch
            || data is ExtFunction),
{
    let ids = child_ids(data);
    if ids.len() > 0 {
        assert(ids.contains(ids[0]));
    }
    if let HeapData::NamedTupleFactory(f) = data {
        if f.contains_refs {
            let i = choose|i: int| 0 <= i < f.defaults@.len() && is_ref(#[trigger] f.defaults@[i]);
            crate::heap_ops::lemma_ref_in_refs(f.defaults@, i);
        }
    }
}

/// A collection keeps the roots, the empty tuple, and whatever an entry that is kept
/// stores a reference to, all unchanged. Beyond that it keeps nothing: every set of
/// entries that contains the roots and the empty tuple, and whatever its entries store
/// references to, contains all that is left. What is freed can be allocated again.
pub proof fn collections_follow_stored_references<T: ResourceTracker>(
    before: HeapModel<T>,
    after: HeapModel<T>,
    roots: Seq<HeapId>,
    from: HeapId,
    to: HeapId,
    keep: Set<HeapId>,
)
    requires
        before.wf(),
        before.collected(after, roots),
    ensures
        after.entries.len() == before.entries.len(),
        roots.contains(to) && live(before.entries, to) ==> after.entries[to.0 as int] == before.entries[to.0 as int],
        after.entries[EMPTY_TUPLE_SLOT as int] == before.entries[EMPTY_TUPLE_SLOT as int],
        live(after.entries, from) && readable(before.entries, from) && child_ids(
            data_at(before.entries, from),
        ).contains(to) && live(before.entries, to) ==> after.entries[to.0 as int] == before.entries[to.0 as int],
        live(after.entries, to) ==> after.entries[to.0 as int] == before.entries[to.0 as int],
        (forall|r: HeapId| #[trigger] roots.contains(r) ==> keep.contains(r)) && keep.contains(
            HeapId(EMPTY_TUPLE_SLOT),
        ) && (forall|a: HeapId, b: HeapId|
            keep.contains(a) && readable(before.entries, a) && #[trigger] child_ids(data_at(before.entries, a)).contains(b)
                ==> keep.contains(b)) && live(after.entries, to) ==> keep.contains(to),
        live(before.entries, to) && !live(after.entries, to) ==> after.free.contains(to),
        !after.may_have_cycles,
        after.allocations_since_gc == 0,
        after.recursion_depth == before.recursion_depth,
        after.wf(),
{
    let e = before.entries;
    assert(HeapId(to.0 as usize) == to);
    assert(HeapId(from.0 as usize) == from);
    reachability_starts_at_roots(e, roots, from, to);
    reachability_starts_at_roots(e, roots, to, to);
    if live(after.entries, from) && readable(e, from) && child_ids(data_at(e, from)).contains(to) {
        assert(edge(e, from, to));
    }
    if (forall|r: HeapId| #[trigger] roots.contains(r) ==> keep.contains(r)) && keep.contains(HeapId(EMPTY_TUPLE_SLOT)) && (
    forall|a: HeapId, b: HeapId|
        keep.contains(a) && readable(e, a) && #[trigger] child_ids(data_at(e, a)).contains(b) ==> keep.contains(b)) && live(
        after.entries,
        to,
    ) {
        let steps = choose|steps: nat| reached(e, roots, to, steps);
        lemma_reached_kept(e, roots, keep, to, steps);
    }
    if live(e, to) && !live(after.entries, to) {
        assert(after.entries[to.0 as int] is None);
    }
}

proof fn lemma_reached_kept(e: Entries, roots: Seq<HeapId>, keep: Set<HeapId>, id: HeapId, steps: nat)
    requires
        forall|r: HeapId| #[trigger] roots.contains(r) ==> keep.contains(r),
        keep.contains(HeapId(EMPTY_TUPLE_SLOT)),
        forall|a: HeapId, b: HeapId|
            keep.contains(a) && readable(e, a) && #[trigger] child_ids(data_at(e, a)).contains(b) ==> keep.contains(b),
        reached(e, roots, id, steps),
    ensures
        keep.contains(id),
    decreases steps,
{
    if steps == 0 {
        if id.0 == 0 {
            assert(id == HeapId(EMPTY_TUPLE_SLOT));
        }
    } else {
        let from = choose|from: HeapId| reached(e, roots, from, (steps - 1) as nat) && #[trigger] edge(e, from, id);
        lemma_reached_kept(e, roots, keep, from, (steps - 1) as nat);
    }
}

} // verus!
