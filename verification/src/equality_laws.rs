//! Laws of equality: values without mappings and sets are equal as an equivalence has it.

use crate::equality::Scene;
use crate::heap::deeper;
use crate::heap_data::HeapData;
use crate::heap_model::data_at;
use crate::resource::{ResourceError, ResourceTracker};
use crate::value::Value;
use vstd::prelude::*;

verus! {

/// The items of a payload that is compared item by item.
pub open spec fn ordered_items(data: HeapData) -> Option<Seq<Value>> {
    match data {
        HeapData::List(l) => Some(l.items@),
        HeapData::Tuple(t) => Some(t@),
        HeapData::NamedTuple(nt) => Some(nt.items@),
        _ => None,
    }
}

/// Down to `n` levels of nesting, are there no mappings, sets and dataclasses?
pub open spec fn nests_sequences<T: ResourceTracker>(s: Scene<T>, v: Value, n: nat) -> bool
    decreases n,
{
    v matches Value::Ref(id) ==> match data_at(s.entries, id) {
        HeapData::List(l) => n > 0 ==> forall|i: int|
            0 <= i < l.items@.len() ==> nests_sequences(s, #[trigger] l.items@[i], (n - 1) as nat),
        HeapData::Tuple(t) => n > 0 ==> forall|i: int|
            0 <= i < t@.len() ==> nests_sequences(s, #[trigger] t@[i], (n - 1) as nat),
        HeapData::NamedTuple(nt) => n > 0 ==> forall|i: int|
            0 <= i < nt.items@.len() ==> nests_sequences(s, #[trigger] nt.items@[i], (n - 1) as nat),
        HeapData::Dict(_) | HeapData::PySet(_) | HeapData::FrozenSet(_) | HeapData::Dataclass(_) => false,
        _ => true,
    }
}

/// Down to `n` levels of nesting, does the value nest nothing but sequences?
pub open spec fn sequences_to<T: ResourceTracker>(s: Scene<T>, v: Value, n: nat) -> bool {
    nests_sequences(s, v, n)
}

/// Does the value hold no mapping, set or dataclass, at any depth?
///
/// Plain values, and lists, tuples and named tuples of them, nested at will, are such
/// values.
pub open spec fn only_sequences<T: ResourceTracker>(s: Scene<T>, v: Value) -> bool {
    forall|n: nat| #[trigger] sequences_to(s, v, n)
}

/// Were two values found to be equal?
pub open spec fn equal<T: ResourceTracker>(s: Scene<T>, a: Value, b: Value, depth: usize) -> bool {
    s.eq_values(a, b, depth) == Ok::<bool, ResourceError>(true)
}

/// Are two sequences equal item by item?
pub open spec fn pairwise_equal<T: ResourceTracker>(
    s: Scene<T>,
    xs: Seq<Value>,
    ys: Seq<Value>,
    depth: usize,
) -> bool {
    xs.len() == ys.len() && forall|i: int| 0 <= i < xs.len() ==> equal(s, #[trigger] xs[i], ys[i], depth)
}

proof fn lemma_items_only_sequences<T: ResourceTracker>(s: Scene<T>, v: Value, items: Seq<Value>)
    requires
        only_sequences(s, v),
        v matches Value::Ref(id) && ordered_items(data_at(s.entries, id)) == Some(items),
    ensures
        forall|i: int| 0 <= i < items.len() ==> only_sequences(s, #[trigger] items[i]),
{
    assert forall|i: int| 0 <= i < items.len() implies only_sequences(s, #[trigger] items[i]) by {
        assert forall|n: nat| #[trigger] sequences_to(s, items[i], n) by {
            let next = n + 1;
            assert(sequences_to(s, v, next));
            assert(nests_sequences(s, items[i], (next - 1) as nat));
        }
    }
}

proof fn lemma_items_equal<T: ResourceTracker>(s: Scene<T>, xs: Seq<Value>, ys: Seq<Value>, i: nat, depth: usize)
    requires
        xs.len() == ys.len(),
        s.eq_items(xs, ys, i, depth) == Ok::<bool, ResourceError>(true),
    ensures
        forall|k: int| i <= k < xs.len() ==> equal(s, #[trigger] xs[k], ys[k], depth),
    decreases xs.len() - i,
{
    if i < xs.len() {
        assert(equal(s, xs[i as int], ys[i as int], depth));
        lemma_items_equal(s, xs, ys, i + 1, depth);
    }
}

proof fn lemma_equal_items_found<T: ResourceTracker>(
    s: Scene<T>,
    xs: Seq<Value>,
    ys: Seq<Value>,
    i: nat,
    depth: usize,
)
    requires
        pairwise_equal(s, xs, ys, depth),
    ensures
        s.eq_items(xs, ys, i, depth) == Ok::<bool, ResourceError>(true),
    decreases xs.len() - i,
{
    if i < xs.len() {
        assert(equal(s, xs[i as int], ys[i as int], depth));
        lemma_equal_items_found(s, xs, ys, i + 1, depth);
    }
}

/// Sequences that are equal have items that are.
proof fn lemma_pairs<T: ResourceTracker>(s: Scene<T>, a: Value, b: Value, xs: Seq<Value>, ys: Seq<Value>, depth: usize)
    requires
        only_sequences(s, a),
        only_sequences(s, b),
        a matches Value::Ref(p) && ordered_items(data_at(s.entries, p)) == Some(xs),
        b matches Value::Ref(q) && ordered_items(data_at(s.entries, q)) == Some(ys),
        a != b,
        equal(s, a, b, depth),
    ensures
        deeper(s.tracker, depth) is Ok,
        depth < usize::MAX,
        pairwise_equal(s, xs, ys, (depth + 1) as usize),
        (data_at(s.entries, a->Ref_0) is List) == (data_at(s.entries, b->Ref_0) is List),
    decreases usize::MAX - depth, 0int,
{
    let (d, e) = (data_at(s.entries, a->Ref_0), data_at(s.entries, b->Ref_0));
    let next = (depth + 1) as usize;
    assert(s.eq_data(d, e, depth) == Ok::<bool, ResourceError>(true));
    if d is Tuple && e is NamedTuple {
        lemma_items_equal(s, ys, xs, 0, next);
        lemma_items_only_sequences(s, a, xs);
        lemma_items_only_sequences(s, b, ys);
        assert forall|i: int| 0 <= i < xs.len() implies equal(s, #[trigger] xs[i], ys[i], next) by {
            assert(equal(s, ys[i], xs[i], next));
            equality_is_symmetric(s, ys[i], xs[i], next);
        }
    } else {
        lemma_items_equal(s, xs, ys, 0, next);
    }
}

/// Sequences of the same kind whose items are equal are equal.
proof fn lemma_from_pairs<T: ResourceTracker>(
    s: Scene<T>,
    a: Value,
    b: Value,
    xs: Seq<Value>,
    ys: Seq<Value>,
    depth: usize,
)
    requires
        only_sequences(s, a),
        only_sequences(s, b),
        a matches Value::Ref(p) && ordered_items(data_at(s.entries, p)) == Some(xs),
        b matches Value::Ref(q) && ordered_items(data_at(s.entries, q)) == Some(ys),
        deeper(s.tracker, depth) is Ok,
        depth < usize::MAX,
        pairwise_equal(s, xs, ys, (depth + 1) as usize),
        (data_at(s.entries, a->Ref_0) is List) == (data_at(s.entries, b->Ref_0) is List),
    ensures
        equal(s, a, b, depth),
    decreases usize::MAX - depth, 0int,
{
    let (d, e) = (data_at(s.entries, a->Ref_0), data_at(s.entries, b->Ref_0));
    let next = (depth + 1) as usize;
    if d is Tuple && e is NamedTuple {
        lemma_items_only_sequences(s, a, xs);
        lemma_items_only_sequences(s, b, ys);
        assert forall|i: int| 0 <= i < ys.len() implies equal(s, #[trigger] ys[i], xs[i], next) by {
            assert(equal(s, xs[i], ys[i], next));
            equality_is_symmetric(s, xs[i], ys[i], next);
        }
        lemma_equal_items_found(s, ys, xs, 0, next);
    } else {
        lemma_equal_items_found(s, xs, ys, 0, next);
    }
}

/// Equality is symmetric on values that hold no mapping, set or dataclass.
pub proof fn equality_is_symmetric<T: ResourceTracker>(s: Scene<T>, a: Value, b: Value, depth: usize)
    requires
        only_sequences(s, a),
        only_sequences(s, b),
        equal(s, a, b, depth),
    ensures
        equal(s, b, a, depth),
    decreases usize::MAX - depth, 1int,
{
    assert(sequences_to(s, a, 0) && sequences_to(s, b, 0));
    if let (Value::Ref(p), Value::Ref(q)) = (a, b) {
        let (d, e) = (data_at(s.entries, p), data_at(s.entries, q));
        if let (Some(xs), Some(ys)) = (ordered_items(d), ordered_items(e)) {
            if a != b {
                let next = (depth + 1) as usize;
                lemma_pairs(s, a, b, xs, ys, depth);
                lemma_items_only_sequences(s, a, xs);
                lemma_items_only_sequences(s, b, ys);
                assert forall|i: int| 0 <= i < ys.len() implies equal(s, #[trigger] ys[i], xs[i], next) by {
                    assert(equal(s, xs[i], ys[i], next));
                    equality_is_symmetric(s, xs[i], ys[i], next);
                }
                lemma_from_pairs(s, b, a, ys, xs, depth);
            }
        }
    }
}

/// Equality is transitive on values that hold no mapping, set or dataclass.
pub proof fn equality_is_transitive<T: ResourceTracker>(s: Scene<T>, a: Value, b: Value, c: Value, depth: usize)
    requires
        only_sequences(s, a),
        only_sequences(s, b),
        only_sequences(s, c),
        equal(s, a, b, depth),
        equal(s, b, c, depth),
    ensures
        equal(s, a, c, depth),
    decreases usize::MAX - depth,
{
    assert(sequences_to(s, a, 0) && sequences_to(s, b, 0) && sequences_to(s, c, 0));
    if a != b && b != c && a != c {
        if let (Value::Ref(p), Value::Ref(q), Value::Ref(r)) = (a, b, c) {
            let (d, e, f) = (data_at(s.entries, p), data_at(s.entries, q), data_at(s.entries, r));
            if let (Some(xs), Some(ys), Some(zs)) = (ordered_items(d), ordered_items(e), ordered_items(f)) {
                let next = (depth + 1) as usize;
                lemma_pairs(s, a, b, xs, ys, depth);
                lemma_pairs(s, b, c, ys, zs, depth);
                lemma_items_only_sequences(s, a, xs);
                lemma_items_only_sequences(s, b, ys);
                lemma_items_only_sequences(s, c, zs);
                assert forall|i: int| 0 <= i < xs.len() implies equal(s, #[trigger] xs[i], zs[i], next) by {
                    assert(equal(s, xs[i], ys[i], next));
                    assert(equal(s, ys[i], zs[i], next));
                    equality_is_transitive(s, xs[i], ys[i], zs[i], next);
                }
                lemma_from_pairs(s, a, c, xs, zs, depth);
            }
        }
    }
}

} // verus!
