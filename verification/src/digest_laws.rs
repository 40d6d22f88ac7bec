//! What the hash of a value is made of, and which values have one.

use crate::builtins::Builtins;
use crate::equality::Scene;
use crate::hash::{
    TUPLE_TAG, digest, hash_data, hash_items, hash_value, int_pieces, leaf_pieces, lemma_keeps_value,
    lemma_rehashed_trans, plain_pieces, rehashed, word, xor_items,
};
use crate::heap::HashState;
use crate::heap_data::HeapData;
use crate::heap_model::{Entries, data_at};
use crate::intern::InternTables;
use crate::resource::{ResourceError, ResourceTracker};
use crate::static_strings::static_ordinals_are_distinct;
use crate::types::scalars::{Range, Slice};
use crate::value::{HeapId, Value};
use crate::walk::Walk;
use vstd::prelude::*;

verus! {

/// Is this what hashing the value gives, whatever hashes were remembered meanwhile?
pub open spec fn hashes_to<T: ResourceTracker>(
    s: Scene<T>,
    e: Entries,
    v: Value,
    depth: usize,
    h: Option<u64>,
) -> bool {
    exists|now: Entries| rehashed(e, now) && (#[trigger] hash_value(s, now, v, depth)).1 == Ok::<
        Option<u64>,
        ResourceError,
    >(h)
}

/// Are these the hashes of the items from number `from` on, in order?
pub open spec fn item_hashes<T: ResourceTracker>(
    s: Scene<T>,
    e: Entries,
    items: Seq<Value>,
    from: nat,
    depth: usize,
    hashes: Seq<u64>,
) -> bool {
    &&& from <= items.len()
    &&& hashes.len() == items.len() - from
    &&& forall|i: int|
        from <= i < items.len() ==> hashes_to(s, e, #[trigger] items[i], depth, Some(hashes[i - from]))
}

/// The pieces that some hashes feed.
pub open spec fn words_of(hashes: Seq<u64>) -> Seq<Seq<u8>> {
    Seq::new(hashes.len(), |i: int| word(hashes[i]))
}

/// The exclusive or of some hashes.
pub open spec fn mixed(hashes: Seq<u64>) -> u64
    decreases hashes.len(),
{
    if hashes.len() == 0 {
        0
    } else {
        mixed(hashes.drop_last()) ^ hashes.last()
    }
}

/// Has one of the items no hash?
pub open spec fn some_unhashable<T: ResourceTracker>(s: Scene<T>, e: Entries, items: Seq<Value>, depth: usize) -> bool {
    exists|i: int| 0 <= i < items.len() && hashes_to(s, e, #[trigger] items[i], depth, None)
}

proof fn lemma_here<T: ResourceTracker>(s: Scene<T>, e: Entries, v: Value, depth: usize, h: Option<u64>)
    requires
        hash_value(s, e, v, depth).1 == Ok::<Option<u64>, ResourceError>(h),
    ensures
        hashes_to(s, e, v, depth, h),
{
    assert(rehashed(e, e));
}

proof fn lemma_later<T: ResourceTracker>(
    s: Scene<T>,
    e: Entries,
    later: Entries,
    v: Value,
    depth: usize,
    h: Option<u64>,
)
    requires
        rehashed(e, later),
        hashes_to(s, later, v, depth, h),
    ensures
        hashes_to(s, e, v, depth, h),
{
    let now = choose|now: Entries| rehashed(later, now) && (#[trigger] hash_value(s, now, v, depth)).1 == Ok::<
        Option<u64>,
        ResourceError,
    >(h);
    lemma_rehashed_trans(e, later, now);
}

proof fn lemma_fed<T: ResourceTracker>(
    s: Scene<T>,
    e: Entries,
    pieces: Seq<Seq<u8>>,
    items: Seq<Value>,
    from: nat,
    depth: usize,
)
    requires
        s.all_at_hand(Walk::Hash, items),
        rehashed(s.entries, e),
        from <= items.len(),
    ensures
        match hash_items(s, e, pieces, items, from, depth).1 {
            Ok(Some(h)) => exists|hashes: Seq<u64>| #[trigger]
                item_hashes(s, e, items, from, depth, hashes) && h == digest(pieces + words_of(hashes)),
            Ok(None) => some_unhashable(s, e, items, depth),
            Err(_) => true,
        },
    decreases items.len() - from,
{
    if from >= items.len() {
        let none = Seq::<u64>::empty();
        assert(item_hashes(s, e, items, from, depth, none));
        assert(pieces + words_of(none) =~= pieces);
    } else {
        let v = items[from as int];
        let (after, r) = hash_value(s, e, v, depth);
        lemma_keeps_value(s, e, v, depth);
        lemma_rehashed_trans(s.entries, e, after);
        match r {
            Ok(Some(h)) => {
                lemma_here(s, e, v, depth, Some(h));
                lemma_fed(s, after, pieces.push(word(h)), items, from + 1, depth);
                match hash_items(s, after, pieces.push(word(h)), items, from + 1, depth).1 {
                    Ok(Some(d)) => {
                        let rest = choose|rest: Seq<u64>| #[trigger]
                            item_hashes(s, after, items, from + 1, depth, rest) && d == digest(
                                pieces.push(word(h)) + words_of(rest),
                            );
                        let hashes = seq![h] + rest;
                        assert forall|i: int| from <= i < items.len() implies hashes_to(
                            s,
                            e,
                            #[trigger] items[i],
                            depth,
                            Some(hashes[i - from]),
                        ) by {
                            if i > from {
                                assert(hashes_to(s, after, items[i], depth, Some(rest[i - from - 1])));
                                lemma_later(s, e, after, items[i], depth, Some(rest[i - from - 1]));
                            }
                        }
                        assert(item_hashes(s, e, items, from, depth, hashes));
                        assert(pieces.push(word(h)) + words_of(rest) =~= pieces + words_of(hashes));
                    },
                    Ok(None) => {
                        let i = choose|i: int|
                            0 <= i < items.len() && hashes_to(s, after, #[trigger] items[i], depth, None);
                        lemma_later(s, e, after, items[i], depth, None);
                    },
                    Err(_) => {},
                }
            },
            Ok(None) => {
                lemma_here(s, e, v, depth, None);
                assert(hashes_to(s, e, items[from as int], depth, None));
            },
            Err(_) => {},
        }
    }
}

proof fn lemma_mixed<T: ResourceTracker>(
    s: Scene<T>,
    e: Entries,
    done: Seq<u64>,
    items: Seq<Value>,
    from: nat,
    depth: usize,
)
    requires
        s.all_at_hand(Walk::Hash, items),
        rehashed(s.entries, e),
        from <= items.len(),
    ensures
        match xor_items(s, e, mixed(done), items, from, depth).1 {
            Ok(Some(h)) => exists|hashes: Seq<u64>| #[trigger]
                item_hashes(s, e, items, from, depth, hashes) && h == mixed(done + hashes),
            Ok(None) => some_unhashable(s, e, items, depth),
            Err(_) => true,
        },
    decreases items.len() - from,
{
    if from >= items.len() {
        let none = Seq::<u64>::empty();
        assert(item_hashes(s, e, items, from, depth, none));
        assert(done + none =~= done);
    } else {
        let v = items[from as int];
        let (after, r) = hash_value(s, e, v, depth);
        lemma_keeps_value(s, e, v, depth);
        lemma_rehashed_trans(s.entries, e, after);
        match r {
            Ok(Some(h)) => {
                lemma_here(s, e, v, depth, Some(h));
                let more = done.push(h);
                assert(more.drop_last() =~= done);
                assert(mixed(more) == mixed(done) ^ h);
                lemma_mixed(s, after, more, items, from + 1, depth);
                match xor_items(s, after, mixed(more), items, from + 1, depth).1 {
                    Ok(Some(d)) => {
                        let rest = choose|rest: Seq<u64>| #[trigger]
                            item_hashes(s, after, items, from + 1, depth, rest) && d == mixed(more + rest);
                        let hashes = seq![h] + rest;
                        assert forall|i: int| from <= i < items.len() implies hashes_to(
                            s,
                            e,
                            #[trigger] items[i],
                            depth,
                            Some(hashes[i - from]),
                        ) by {
                            if i > from {
                                assert(hashes_to(s, after, items[i], depth, Some(rest[i - from - 1])));
                                lemma_later(s, e, after, items[i], depth, Some(rest[i - from - 1]));
                            }
                        }
                        assert(item_hashes(s, e, items, from, depth, hashes));
                        assert(more + rest =~= done + hashes);
                    },
                    Ok(None) => {
                        let i = choose|i: int|
                            0 <= i < items.len() && hashes_to(s, after, #[trigger] items[i], depth, None);
                        lemma_later(s, e, after, items[i], depth, None);
                    },
                    Err(_) => {},
                }
            },
            Ok(None) => {
                lemma_here(s, e, v, depth, None);
                assert(hashes_to(s, e, items[from as int], depth, None));
            },
            Err(_) => {},
        }
    }
}

/// The hash of a tuple, with or without names, is made of the hashes of all its items, in
/// order. It has none just where an item has none.
pub proof fn tuples_hash_by_all_their_items<T: ResourceTracker>(
    s: Scene<T>,
    e: Entries,
    data: HeapData,
    items: Seq<Value>,
    depth: usize,
)
    requires
        match data {
            HeapData::Tuple(x) => items == x@,
            HeapData::NamedTuple(x) => items == x.items@,
            _ => false,
        },
        s.all_at_hand(Walk::Hash, items),
        rehashed(s.entries, e),
    ensures
        match hash_data(s, e, data, depth).1 {
            Ok(Some(h)) => exists|hashes: Seq<u64>| #[trigger]
                item_hashes(s, e, items, 0, (depth + 1) as usize, hashes) && h == digest(
                    seq![word(TUPLE_TAG)] + words_of(hashes),
                ),
            Ok(None) => some_unhashable(s, e, items, (depth + 1) as usize),
            Err(_) => true,
        },
{
    lemma_fed(s, e, seq![word(TUPLE_TAG)], items, 0, (depth + 1) as usize);
}

/// The hash of a frozen set is the exclusive or of the hashes of all its items. It has none
/// just where an item has none.
pub proof fn frozen_sets_hash_by_all_their_items<T: ResourceTracker>(
    s: Scene<T>,
    e: Entries,
    data: HeapData,
    items: Seq<Value>,
    depth: usize,
)
    requires
        data matches HeapData::FrozenSet(x) && items == x.storage.items@,
        s.all_at_hand(Walk::Hash, items),
        rehashed(s.entries, e),
    ensures
        match hash_data(s, e, data, depth).1 {
            Ok(Some(h)) => exists|hashes: Seq<u64>| #[trigger]
                item_hashes(s, e, items, 0, (depth + 1) as usize, hashes) && h == mixed(hashes),
            Ok(None) => some_unhashable(s, e, items, (depth + 1) as usize),
            Err(_) => true,
        },
{
    let none = Seq::<u64>::empty();
    lemma_mixed(s, e, none, items, 0, (depth + 1) as usize);
    if let Ok(Some(h)) = hash_data(s, e, data, depth).1 {
        let hashes = choose|hashes: Seq<u64>| #[trigger]
            item_hashes(s, e, items, 0, (depth + 1) as usize, hashes) && h == mixed(none + hashes);
        assert(none + hashes =~= hashes);
    }
}

/// Can the payload be changed once it is made?
pub open spec fn is_mutable(data: HeapData) -> bool {
    match data {
        HeapData::List(_) | HeapData::Dict(_) | HeapData::PySet(_) => true,
        HeapData::Dataclass(x) => !x.frozen,
        _ => false,
    }
}

/// Lists, dictionaries, sets and dataclasses that are not frozen have no hash. Strings,
/// bytes, numbers, functions, ranges, slices, classes and paths always have one. Whatever
/// has no other values in it needs no others to be hashed.
pub proof fn mutable_payloads_have_no_hash<T: ResourceTracker>(s: Scene<T>, e: Entries, data: HeapData, depth: usize)
    ensures
        is_mutable(data) ==> hash_data(s, e, data, depth) == (e, Ok::<Option<u64>, ResourceError>(None)),
        data is Str || data is Bytes || data is LongInt || data is Closure || data is FunctionDefaults || data is Range
            || data is Slice || data is Class || data is Path || data is ExtFunction ==> hash_data(
            s,
            e,
            data,
            depth,
        ).0 == e && (hash_data(s, e, data, depth).1 matches Ok(Some(_))),
        is_mutable(data) && !(data is Dataclass) ==> HashState::initial(data) == HashState::Unhashable,
        hash_data(s, e, data, depth).1 matches Ok(Some(_)) ==> HashState::initial(data) == HashState::Unknown,
{
}

/// A value that is no reference always has a hash, and hashing it changes nothing.
pub proof fn immediate_values_have_hashes<T: ResourceTracker>(s: Scene<T>, e: Entries, v: Value, depth: usize)
    requires
        !(v is Ref),
    ensures
        hash_value(s, e, v, depth).0 == e,
        hash_value(s, e, v, depth).1 matches Ok(Some(_)),
{
}

proof fn lemma_words_differ(a: i64, b: i64)
    requires
        word(a as u64) == word(b as u64),
    ensures
        a == b,
{
    vstd::bytes::lemma_auto_spec_u64_to_from_le_bytes();
    assert(a as u64 == b as u64);
    assert(a == b) by (bit_vector)
        requires
            a as u64 == b as u64,
    ;
}

/// Ranges that differ in a bound or in their step feed different pieces, and so do small
/// integers.
pub proof fn different_ranges_feed_different_pieces(tables: InternTables, a: Range, b: Range, m: i64, n: i64)
    ensures
        leaf_pieces(tables, HeapData::Range(a)) == leaf_pieces(tables, HeapData::Range(b)) ==> a == b,
        int_pieces(m as int) == int_pieces(n as int) ==> m == n,
{
    let (x, y) = (leaf_pieces(tables, HeapData::Range(a)), leaf_pieces(tables, HeapData::Range(b)));
    if x == y {
        assert(x->0[1] == y->0[1] && x->0[2] == y->0[2] && x->0[3] == y->0[3]);
        lemma_words_differ(a.start, b.start);
        lemma_words_differ(a.stop, b.stop);
        lemma_words_differ(a.step, b.step);
    }
    if int_pieces(m as int) == int_pieces(n as int) {
        assert(int_pieces(m as int)[0] == int_pieces(n as int)[0]);
        lemma_words_differ(m, n);
    }
}

/// A cell has a hash whatever it holds, and it depends on the cell alone.
pub proof fn cells_hash_by_identity<T: ResourceTracker>(
    s: Scene<T>,
    a: Entries,
    b: Entries,
    id: HeapId,
    depth: usize,
    later: usize,
)
    requires
        data_at(a, id) is Cell,
        data_at(b, id) is Cell,
        a[id.0 as int]->0.hash_state == HashState::Unknown,
        b[id.0 as int]->0.hash_state == HashState::Unknown,
    ensures
        hash_value(s, a, Value::Ref(id), depth).1 matches Ok(Some(_)),
        hash_value(s, a, Value::Ref(id), depth).1 == hash_value(s, b, Value::Ref(id), later).1,
{
}

/// Functions, markers, properties and `None` feed different pieces unless they are the same.
pub proof fn different_plain_values_feed_different_pieces(v: Value, w: Value)
    requires
        feeds_numbers(v),
        feeds_numbers(w),
        plain_pieces(v) == plain_pieces(w),
    ensures
        v == w,
{
    vstd::bytes::lemma_auto_spec_u64_to_from_le_bytes();
    assert(plain_pieces(v)[0] == plain_pieces(w)[0]);
    assert(plain_pieces(v).len() == plain_pieces(w).len());
    if plain_pieces(v).len() == 2 {
        assert(plain_pieces(v)[1] == plain_pieces(w)[1]);
    }
    if let (Value::Marker(a), Value::Marker(b)) = (v, w) {
        static_ordinals_are_distinct(a, b);
    }
}

/// Is the value one that feeds numbers only?
pub open spec fn feeds_numbers(v: Value) -> bool {
    match v {
        Value::PyNone
        | Value::ExtFunction(_)
        | Value::DefFunction(_)
        | Value::Property(_)
        | Value::Marker(_)
        | Value::Builtin(Builtins::Function(_)) => true,
        _ => false,
    }
}

} // verus!
