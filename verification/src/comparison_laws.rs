//! When two values are equal, said of what they hold.

use crate::equality::{Scene, keys};
use crate::equality_laws::equal;
use crate::heap::deeper;
use crate::heap_data::HeapData;
use crate::heap_model::data_at;
use crate::intern::id_text;
use crate::resource::{ResourceError, ResourceTracker};
use crate::types::mappings::DictEntry;
use crate::value::{HeapId, Value};
use vstd::prelude::*;

verus! {

/// Is some item equal to the value?
pub open spec fn found<T: ResourceTracker>(s: Scene<T>, v: Value, ys: Seq<Value>, depth: usize) -> bool {
    exists|j: int| 0 <= j < ys.len() && equal(s, v, #[trigger] ys[j], depth)
}

/// Is each item equal to some item of the other sequence?
pub open spec fn all_found<T: ResourceTracker>(s: Scene<T>, xs: Seq<Value>, ys: Seq<Value>, depth: usize) -> bool {
    forall|i: int| 0 <= i < xs.len() ==> found(s, #[trigger] xs[i], ys, depth)
}

/// Is the first entry with an equal key one with an equal value?
pub open spec fn looked_up<T: ResourceTracker>(s: Scene<T>, x: DictEntry, ys: Seq<DictEntry>, depth: usize) -> bool {
    exists|j: int|
        {
            &&& 0 <= j < ys.len()
            &&& equal(s, x.key, (#[trigger] ys[j]).key, depth)
            &&& forall|k: int| 0 <= k < j ==> !equal(s, x.key, (#[trigger] ys[k]).key, depth)
            &&& equal(s, x.value, ys[j].value, depth)
        }
}

/// Has each entry an entry of the other sequence with an equal key and value?
pub open spec fn all_looked_up<T: ResourceTracker>(
    s: Scene<T>,
    xs: Seq<DictEntry>,
    ys: Seq<DictEntry>,
    depth: usize,
) -> bool {
    forall|i: int| 0 <= i < xs.len() ==> looked_up(s, #[trigger] xs[i], ys, depth)
}

/// Is each item equal to the one at its place?
pub open spec fn matched<T: ResourceTracker>(s: Scene<T>, xs: Seq<Value>, ys: Seq<Value>, depth: usize) -> bool {
    forall|i: int| 0 <= i < xs.len() ==> equal(s, #[trigger] xs[i], ys[i], depth)
}

proof fn lemma_find<T: ResourceTracker>(s: Scene<T>, v: Value, ys: Seq<Value>, from: nat, depth: usize)
    ensures
        match s.find(v, ys, from, depth) {
            Ok(Some(j)) => {
                &&& from <= j < ys.len()
                &&& equal(s, v, ys[j as int], depth)
                &&& forall|k: int| from <= k < j ==> !equal(s, v, #[trigger] ys[k], depth)
            },
            Ok(None) => forall|k: int| from <= k < ys.len() ==> !equal(s, v, #[trigger] ys[k], depth),
            Err(e) => exists|k: int| 0 <= k < ys.len() && s.eq_values(v, #[trigger] ys[k], depth) == Err::<
                bool,
                ResourceError,
            >(e),
        },
    decreases ys.len() - from,
{
    if from < ys.len() {
        lemma_find(s, v, ys, from + 1, depth);
    }
}

proof fn lemma_subset<T: ResourceTracker>(s: Scene<T>, xs: Seq<Value>, ys: Seq<Value>, from: nat, depth: usize)
    ensures
        match s.subset_from(xs, ys, from, depth) {
            Ok(true) => forall|i: int| from <= i < xs.len() ==> found(s, #[trigger] xs[i], ys, depth),
            Ok(false) => exists|i: int| from <= i < xs.len() && !found(s, #[trigger] xs[i], ys, depth),
            Err(e) => exists|i: int, k: int|
                0 <= i < xs.len() && 0 <= k < ys.len() && s.eq_values(#[trigger] xs[i], #[trigger] ys[k], depth) == Err::<
                    bool,
                    ResourceError,
                >(e),
        },
    decreases xs.len() - from,
{
    if from < xs.len() {
        lemma_find(s, xs[from as int], ys, 0, depth);
        lemma_subset(s, xs, ys, from + 1, depth);
    }
}

proof fn lemma_submap<T: ResourceTracker>(
    s: Scene<T>,
    xs: Seq<DictEntry>,
    ys: Seq<DictEntry>,
    from: nat,
    depth: usize,
)
    ensures
        match s.submap_from(xs, ys, from, depth) {
            Ok(true) => forall|i: int| from <= i < xs.len() ==> looked_up(s, #[trigger] xs[i], ys, depth),
            Ok(false) => exists|i: int| from <= i < xs.len() && !looked_up(s, #[trigger] xs[i], ys, depth),
            Err(_) => true,
        },
    decreases xs.len() - from,
{
    if from < xs.len() {
        let x = xs[from as int];
        lemma_find(s, x.key, keys(ys), 0, depth);
        assert forall|k: int| 0 <= k < ys.len() implies (#[trigger] ys[k]).key == keys(ys)[k] by {}
        lemma_submap(s, xs, ys, from + 1, depth);
        match s.find(x.key, keys(ys), 0, depth) {
            Ok(Some(j)) => {
                if equal(s, x.value, ys[j as int].value, depth) {
                    assert(equal(s, x.key, ys[j as int].key, depth));
                    assert(looked_up(s, x, ys, depth));
                } else {
                    assert forall|m: int| 0 <= m < ys.len() implies !({
                        &&& equal(s, x.key, (#[trigger] ys[m]).key, depth)
                        &&& forall|k: int| 0 <= k < m ==> !equal(s, x.key, (#[trigger] ys[k]).key, depth)
                        &&& equal(s, x.value, ys[m].value, depth)
                    }) by {
                        if m < j {
                            assert(!equal(s, x.key, keys(ys)[m], depth));
                        } else if m > j {
                            assert(equal(s, x.key, ys[j as int].key, depth));
                        }
                    }
                    assert(!looked_up(s, x, ys, depth));
                }
            },
            Ok(None) => {
                assert forall|m: int| 0 <= m < ys.len() implies !equal(s, x.key, (#[trigger] ys[m]).key, depth) by {
                    assert(!equal(s, x.key, keys(ys)[m], depth));
                }
                assert(!looked_up(s, x, ys, depth));
            },
            Err(_) => {},
        }
    }
}

proof fn lemma_items<T: ResourceTracker>(s: Scene<T>, xs: Seq<Value>, ys: Seq<Value>, from: nat, depth: usize)
    ensures
        match s.eq_items(xs, ys, from, depth) {
            Ok(true) => forall|i: int| from <= i < xs.len() ==> equal(s, #[trigger] xs[i], ys[i], depth),
            Ok(false) => exists|i: int| from <= i < xs.len() && !equal(s, #[trigger] xs[i], ys[i], depth),
            Err(_) => true,
        },
    decreases xs.len() - from,
{
    if from < xs.len() {
        lemma_items(s, xs, ys, from + 1, depth);
    }
}

/// The items of a set of either kind.
pub open spec fn set_items(data: HeapData) -> Option<Seq<Value>> {
    match data {
        HeapData::PySet(x) => Some(x.storage.items@),
        HeapData::FrozenSet(x) => Some(x.storage.items@),
        _ => None,
    }
}

/// Are both sets of the same kind?
pub open spec fn same_kind_of_set(a: HeapData, b: HeapData) -> bool {
    (a is PySet && b is PySet) || (a is FrozenSet && b is FrozenSet)
}

/// Two sets are equal just if they have equally many items and each item of one is equal to
/// some item of the other, wherever it is stored. Comparing them fails only where the
/// nesting is too deep or two items cannot be compared.
pub proof fn sets_compare_by_their_members<T: ResourceTracker>(
    s: Scene<T>,
    p: HeapId,
    q: HeapId,
    xs: Seq<Value>,
    ys: Seq<Value>,
    depth: usize,
)
    requires
        p != q,
        same_kind_of_set(data_at(s.entries, p), data_at(s.entries, q)),
        set_items(data_at(s.entries, p)) == Some(xs),
        set_items(data_at(s.entries, q)) == Some(ys),
    ensures
        match s.eq_values(Value::Ref(p), Value::Ref(q), depth) {
            Ok(r) => r == (xs.len() == ys.len() && all_found(s, xs, ys, (depth + 1) as usize)),
            Err(e) => xs.len() == ys.len() && (deeper(s.tracker, depth) == Err::<(), ResourceError>(e) || exists|
                i: int,
                k: int,
            |
                0 <= i < xs.len() && 0 <= k < ys.len() && s.eq_values(
                    #[trigger] xs[i],
                    #[trigger] ys[k],
                    (depth + 1) as usize,
                ) == Err::<bool, ResourceError>(e)),
        },
{
    lemma_subset(s, xs, ys, 0, (depth + 1) as usize);
}

proof fn lemma_same_items(xs: Seq<Value>, ys: Seq<Value>)
    requires
        xs.to_multiset() == ys.to_multiset(),
    ensures
        xs.len() == ys.len(),
        forall|v: Value| xs.contains(v) == #[trigger] ys.contains(v),
{
    broadcast use vstd::seq_lib::group_to_multiset_ensures;

    assert(xs.len() == xs.to_multiset().len());
    assert(ys.len() == ys.to_multiset().len());
    assert forall|v: Value| xs.contains(v) == #[trigger] ys.contains(v) by {
        assert(xs.contains(v) == (xs.to_multiset().count(v) > 0));
    }
}

/// In which order the items of two sets are stored does not matter to whether they are
/// equal, and neither does of which kind the sets are.
pub proof fn the_order_of_a_set_does_not_matter<T: ResourceTracker>(
    s: Scene<T>,
    p: HeapId,
    q: HeapId,
    t: HeapId,
    u: HeapId,
    xs: Seq<Value>,
    ys: Seq<Value>,
    zs: Seq<Value>,
    ws: Seq<Value>,
    depth: usize,
)
    requires
        p != q,
        t != u,
        same_kind_of_set(data_at(s.entries, p), data_at(s.entries, q)),
        same_kind_of_set(data_at(s.entries, t), data_at(s.entries, u)),
        set_items(data_at(s.entries, p)) == Some(xs),
        set_items(data_at(s.entries, q)) == Some(ys),
        set_items(data_at(s.entries, t)) == Some(zs),
        set_items(data_at(s.entries, u)) == Some(ws),
        xs.to_multiset() == zs.to_multiset(),
        ys.to_multiset() == ws.to_multiset(),
        s.eq_values(Value::Ref(p), Value::Ref(q), depth) is Ok,
        s.eq_values(Value::Ref(t), Value::Ref(u), depth) is Ok,
    ensures
        s.eq_values(Value::Ref(p), Value::Ref(q), depth) == s.eq_values(Value::Ref(t), Value::Ref(u), depth),
{
    let next = (depth + 1) as usize;
    sets_compare_by_their_members(s, p, q, xs, ys, depth);
    sets_compare_by_their_members(s, t, u, zs, ws, depth);
    lemma_same_items(xs, zs);
    lemma_same_items(ys, ws);
    assert forall|v: Value| found(s, v, ys, next) implies #[trigger] found(s, v, ws, next) by {
        let j = choose|j: int| 0 <= j < ys.len() && equal(s, v, #[trigger] ys[j], next);
        assert(ys.contains(ys[j]));
        assert(ws.contains(ys[j]));
        let k = ws.index_of(ys[j]);
        assert(equal(s, v, ws[k], next));
    }
    assert forall|v: Value| found(s, v, ws, next) implies #[trigger] found(s, v, ys, next) by {
        let j = choose|j: int| 0 <= j < ws.len() && equal(s, v, #[trigger] ws[j], next);
        assert(ws.contains(ws[j]));
        assert(ys.contains(ws[j]));
        let k = ys.index_of(ws[j]);
        assert(equal(s, v, ys[k], next));
    }
    if all_found(s, xs, ys, next) {
        assert forall|i: int| 0 <= i < zs.len() implies found(s, #[trigger] zs[i], ws, next) by {
            assert(zs.contains(zs[i]));
            assert(xs.contains(zs[i]));
            let k = xs.index_of(zs[i]);
            assert(found(s, xs[k], ys, next));
        }
    }
    if all_found(s, zs, ws, next) {
        assert forall|i: int| 0 <= i < xs.len() implies found(s, #[trigger] xs[i], ys, next) by {
            assert(xs.contains(xs[i]));
            assert(zs.contains(xs[i]));
            let k = zs.index_of(xs[i]);
            assert(found(s, zs[k], ws, next));
        }
    }
}

/// The entries of a dictionary, or of a dataclass's attributes.
pub open spec fn mapping_entries(data: HeapData) -> Option<Seq<DictEntry>> {
    match data {
        HeapData::Dict(d) => Some(d.entries@),
        HeapData::Dataclass(dc) => Some(dc.attrs.entries@),
        _ => None,
    }
}

/// Two dictionaries are equal just if they have equally many entries and each key of one
/// leads to an equal value in the other. Instances of dataclasses have to be of the same
/// class besides.
pub proof fn mappings_compare_key_by_key<T: ResourceTracker>(
    s: Scene<T>,
    p: HeapId,
    q: HeapId,
    xs: Seq<DictEntry>,
    ys: Seq<DictEntry>,
    depth: usize,
)
    requires
        p != q,
        mapping_entries(data_at(s.entries, p)) == Some(xs),
        mapping_entries(data_at(s.entries, q)) == Some(ys),
    ensures
        s.eq_values(Value::Ref(p), Value::Ref(q), depth) matches Ok(r) ==> r == ({
            &&& match (data_at(s.entries, p), data_at(s.entries, q)) {
                (HeapData::Dict(_), HeapData::Dict(_)) => true,
                (HeapData::Dataclass(x), HeapData::Dataclass(y)) => x.type_id == y.type_id,
                _ => false,
            }
            &&& xs.len() == ys.len()
            &&& all_looked_up(s, xs, ys, (depth + 1) as usize)
        }),
{
    lemma_submap(s, xs, ys, 0, (depth + 1) as usize);
}

/// Two lists are equal just if they are equally long and equal at each place. So are two
/// tuples, with or without names, and a list is never equal to a tuple.
pub proof fn sequences_compare_place_by_place<T: ResourceTracker>(
    s: Scene<T>,
    p: HeapId,
    q: HeapId,
    xs: Seq<Value>,
    ys: Seq<Value>,
    depth: usize,
)
    requires
        p != q,
        sequence_items(data_at(s.entries, p)) == Some(xs),
        sequence_items(data_at(s.entries, q)) == Some(ys),
    ensures
        s.eq_values(Value::Ref(p), Value::Ref(q), depth) matches Ok(r) ==> r == ({
            &&& data_at(s.entries, p) is List == data_at(s.entries, q) is List
            &&& xs.len() == ys.len()
            &&& if data_at(s.entries, p) is Tuple && data_at(s.entries, q) is NamedTuple {
                matched(s, ys, xs, (depth + 1) as usize)
            } else {
                matched(s, xs, ys, (depth + 1) as usize)
            }
        }),
{
    lemma_items(s, xs, ys, 0, (depth + 1) as usize);
    lemma_items(s, ys, xs, 0, (depth + 1) as usize);
}

/// The items of a list or a tuple.
pub open spec fn sequence_items(data: HeapData) -> Option<Seq<Value>> {
    match data {
        HeapData::List(x) => Some(x.items@),
        HeapData::Tuple(x) => Some(x@),
        HeapData::NamedTuple(x) => Some(x.items@),
        _ => None,
    }
}

/// Is the value a string with this text, interned or on the heap?
pub open spec fn reads<T: ResourceTracker>(s: Scene<T>, v: Value, t: Seq<char>) -> bool {
    match v {
        Value::InternString(id) => id_text(s.tables.strings, id) == t,
        Value::Ref(id) => data_at(s.entries, id) matches HeapData::Str(x) && x.value@ == t,
        _ => false,
    }
}

/// Is the value a bytes object with these bytes, interned or on the heap?
pub open spec fn encodes<T: ResourceTracker>(s: Scene<T>, v: Value, t: Seq<u8>) -> bool {
    match v {
        Value::InternBytes(id) => s.tables.bytes[id.0 as int] == t,
        Value::Ref(id) => data_at(s.entries, id) matches HeapData::Bytes(x) && x.value@ == t,
        _ => false,
    }
}

/// Is the value an integer, small or on the heap, or a boolean that counts as this number?
pub open spec fn counts_as<T: ResourceTracker>(s: Scene<T>, v: Value, n: int) -> bool {
    match v {
        Value::Int(m) => m == n,
        Value::Bool(b) => n == (if b { 1int } else { 0 }),
        Value::Ref(id) => data_at(s.entries, id) matches HeapData::LongInt(x) && x@ == n,
        _ => false,
    }
}

/// Strings are equal just if their texts are, however they are stored; so are bytes by
/// their bytes and numbers by what they count as. A string, a bytes object and a number are
/// never equal to one another.
pub proof fn scalars_compare_by_what_they_stand_for<T: ResourceTracker>(
    s: Scene<T>,
    a: Value,
    b: Value,
    t: Seq<char>,
    u: Seq<char>,
    bs: Seq<u8>,
    cs: Seq<u8>,
    m: int,
    n: int,
    depth: usize,
)
    ensures
        reads(s, a, t) && reads(s, b, u) ==> s.eq_values(a, b, depth) == Ok::<bool, ResourceError>(t == u),
        encodes(s, a, bs) && encodes(s, b, cs) ==> s.eq_values(a, b, depth) == Ok::<bool, ResourceError>(bs == cs),
        counts_as(s, a, m) && counts_as(s, b, n) ==> s.eq_values(a, b, depth) == Ok::<bool, ResourceError>(m == n),
        reads(s, a, t) && encodes(s, b, cs) ==> s.eq_values(a, b, depth) == Ok::<bool, ResourceError>(false),
        reads(s, a, t) && counts_as(s, b, n) ==> s.eq_values(a, b, depth) == Ok::<bool, ResourceError>(false),
        encodes(s, a, bs) && counts_as(s, b, n) ==> s.eq_values(a, b, depth) == Ok::<bool, ResourceError>(false),
        reads(s, a, t) <==> s.text(a) == Some(t),
        encodes(s, a, bs) <==> s.bytes(a) == Some(bs),
        counts_as(s, a, m) <==> s.number(a) == Some(m),
{
}

/// Ranges and slices are equal just if their bounds and steps are. Functions are equal just
/// if they come from the same definition and share their cells, paths if their texts are
/// the same, and patterns if their texts and flags are.
pub proof fn objects_compare_by_their_parts<T: ResourceTracker>(s: Scene<T>, p: HeapId, q: HeapId, depth: usize)
    requires
        p != q,
    ensures
        match (data_at(s.entries, p), data_at(s.entries, q)) {
            (HeapData::Range(x), HeapData::Range(y)) => equal(s, Value::Ref(p), Value::Ref(q), depth) == (x.start
                == y.start && x.stop == y.stop && x.step == y.step),
            (HeapData::Slice(x), HeapData::Slice(y)) => equal(s, Value::Ref(p), Value::Ref(q), depth) == (x.start
                == y.start && x.stop == y.stop && x.step == y.step),
            (HeapData::Closure(x), HeapData::Closure(y)) => equal(s, Value::Ref(p), Value::Ref(q), depth) == (x.func_id
                == y.func_id && x.cells@ == y.cells@),
            (HeapData::FunctionDefaults(x), HeapData::FunctionDefaults(y)) => equal(
                s,
                Value::Ref(p),
                Value::Ref(q),
                depth,
            ) == (x.func_id == y.func_id),
            (HeapData::Path(x), HeapData::Path(y)) => equal(s, Value::Ref(p), Value::Ref(q), depth) == (x.path@
                == y.path@),
            (HeapData::RePattern(x), HeapData::RePattern(y)) => equal(s, Value::Ref(p), Value::Ref(q), depth) == (
            x.pattern@ == y.pattern@ && x.flags == y.flags),
            _ => true,
        },
{
}

/// Is the payload one that equals another one by what it holds?
pub open spec fn has_contents(data: HeapData) -> bool {
    match data {
        HeapData::Str(_)
        | HeapData::Bytes(_)
        | HeapData::LongInt(_)
        | HeapData::Range(_)
        | HeapData::Slice(_)
        | HeapData::Closure(_)
        | HeapData::FunctionDefaults(_)
        | HeapData::Path(_)
        | HeapData::RePattern(_) => true,
        _ => sequence_items(data) is Some || set_items(data) is Some || mapping_entries(data) is Some,
    }
}

/// A value is equal to itself. Any other value is equal to it only if both are numbers,
/// strings or bytes, or both are on the heap, of the same type or both tuples, and with
/// contents to compare.
pub proof fn other_objects_compare_by_identity<T: ResourceTracker>(s: Scene<T>, a: Value, b: Value, depth: usize)
    ensures
        equal(s, a, a, depth),
        equal(s, a, b, depth) && a != b ==> {
            ||| s.number(a) is Some && s.number(b) is Some
            ||| s.text(a) is Some && s.text(b) is Some
            ||| s.bytes(a) is Some && s.bytes(b) is Some
            ||| a matches Value::Ref(p) && b matches Value::Ref(q) && {
                &&& has_contents(data_at(s.entries, p)) && has_contents(data_at(s.entries, q))
                &&& data_at(s.entries, p).spec_type() == data_at(s.entries, q).spec_type() || {
                    &&& data_at(s.entries, p) is Tuple || data_at(s.entries, p) is NamedTuple
                    &&& data_at(s.entries, q) is Tuple || data_at(s.entries, q) is NamedTuple
                }
            }
        },
{
}

} // verus!
