//! What hashes depend on.
//!
//! Entries remember their hashes, so what hashing an entry computes depends on what was
//! hashed before. The number that comes out does not: it is the one that the value has
//! by itself. From this it follows that the order of a frozenset's items does not matter,
//! and that values which are equal hash alike.

use crate::equality::{Scene, elements};
use crate::equality_laws::{
    equal, equality_is_symmetric, equality_is_transitive, nests_sequences, only_sequences, ordered_items, sequences_to,
};
use crate::hash::{
    digest, hash_data, hash_items, hash_value, identity_hash, leaf_pieces, lemma_keeps_data, lemma_rehashed_trans,
    rehashed, state_of, tagged_items, with_state, word, xor_items,
};
use crate::heap::{HashState, deeper, may_be_hashed};
use crate::heap_data::HeapData;
use crate::heap_model::{Entries, data_at, readable};
use crate::resource::{ResourceError, ResourceTracker};
use crate::types::mappings::FrozenSet;
use crate::value::{HeapId, Value};
use crate::walk::{Walk, hashed_items, lemma_at_hand};
use vstd::prelude::*;

verus! {

/// The hash that a value has by itself, where it is nested at most `fuel` deep. The
/// inner option is empty for a value that cannot be hashed.
pub open spec fn own_hash<T: ResourceTracker>(s: Scene<T>, v: Value, fuel: nat) -> Option<Option<u64>>
    decreases fuel, 2int, 0int,
{
    match v {
        Value::Ref(id) => if data_at(s.entries, id) is Cell {
            Some(Some(identity_hash(id)))
        } else {
            own_data_hash(s, data_at(s.entries, id), fuel)
        },
        _ => match hash_value(s, s.entries, v, 0).1 {
            Ok(h) => Some(h),
            Err(_) => None,
        },
    }
}

/// The hash that a payload has by itself.
pub open spec fn own_data_hash<T: ResourceTracker>(s: Scene<T>, data: HeapData, fuel: nat) -> Option<Option<u64>>
    decreases fuel, 1int, 0int,
{
    if let Some((tag, items)) = tagged_items(data) {
        if fuel == 0 {
            None
        } else {
            own_items_hash(s, seq![word(tag)], items, 0, (fuel - 1) as nat)
        }
    } else if let HeapData::FrozenSet(fs) = data {
        if fuel == 0 {
            None
        } else {
            own_xor(s, 0, fs.storage.items@, 0, (fuel - 1) as nat)
        }
    } else {
        match leaf_pieces(s.tables, data) {
            Some(pieces) => Some(Some(digest(pieces))),
            None => Some(None),
        }
    }
}

/// The hash of what `pieces` and the hashes of the items from `i` on feed.
pub open spec fn own_items_hash<T: ResourceTracker>(
    s: Scene<T>,
    pieces: Seq<Seq<u8>>,
    items: Seq<Value>,
    i: nat,
    fuel: nat,
) -> Option<Option<u64>>
    decreases fuel, 3int, items.len() - i,
{
    if i >= items.len() {
        Some(Some(digest(pieces)))
    } else {
        match own_hash(s, items[i as int], fuel) {
            Some(Some(h)) => own_items_hash(s, pieces.push(word(h)), items, i + 1, fuel),
            other => other,
        }
    }
}

/// The exclusive or of `acc` and the hashes of the items from `i` on.
pub open spec fn own_xor<T: ResourceTracker>(
    s: Scene<T>,
    acc: u64,
    items: Seq<Value>,
    i: nat,
    fuel: nat,
) -> Option<Option<u64>>
    decreases fuel, 3int, items.len() - i,
{
    if i >= items.len() {
        Some(Some(acc))
    } else {
        match own_hash(s, items[i as int], fuel) {
            Some(Some(h)) => own_xor(s, acc ^ h, items, i + 1, fuel),
            other => other,
        }
    }
}

/// Is `fuel` enough to find that the value hashes to `h`?
pub open spec fn settles<T: ResourceTracker>(s: Scene<T>, v: Value, h: Option<u64>, fuel: nat) -> bool {
    own_hash(s, v, fuel) == Some(h)
}

/// Is `fuel` enough to find that the payload hashes to `h`?
pub open spec fn data_settles<T: ResourceTracker>(s: Scene<T>, data: HeapData, h: Option<u64>, fuel: nat) -> bool {
    own_data_hash(s, data, fuel) == Some(h)
}

/// Is `fuel` enough to find that pieces and items hash to `h`?
pub open spec fn items_settle<T: ResourceTracker>(
    s: Scene<T>,
    pieces: Seq<Seq<u8>>,
    items: Seq<Value>,
    i: nat,
    h: Option<u64>,
    fuel: nat,
) -> bool {
    own_items_hash(s, pieces, items, i, fuel) == Some(h)
}

/// Is `fuel` enough to find that the exclusive or is `h`?
pub open spec fn xor_settles<T: ResourceTracker>(
    s: Scene<T>,
    acc: u64,
    items: Seq<Value>,
    i: nat,
    h: Option<u64>,
    fuel: nat,
) -> bool {
    own_xor(s, acc, items, i, fuel) == Some(h)
}

/// Is this the hash that the value has by itself?
pub open spec fn hashes_to<T: ResourceTracker>(s: Scene<T>, v: Value, h: Option<u64>) -> bool {
    exists|fuel: nat| settles(s, v, h, fuel)
}

/// Does every entry whose payload is in its place remember the hash that it has by
/// itself, or none?
pub open spec fn remembers_rightly<T: ResourceTracker>(s: Scene<T>, e: Entries) -> bool {
    &&& rehashed(s.entries, e)
    &&& forall|id: HeapId| #[trigger]
        readable(e, id) ==> match e[id.0 as int]->0.hash_state {
            HashState::Unknown => true,
            HashState::Cached(h) => hashes_to(s, Value::Ref(id), Some(h)),
            HashState::Unhashable => hashes_to(s, Value::Ref(id), None),
        }
}

// ---------------------------------------------------------------------------
// More fuel changes nothing
// ---------------------------------------------------------------------------

proof fn lemma_more_fuel<T: ResourceTracker>(s: Scene<T>, v: Value, fuel: nat, more: nat)
    requires
        own_hash(s, v, fuel) is Some,
        fuel <= more,
    ensures
        own_hash(s, v, more) == own_hash(s, v, fuel),
    decreases fuel, 2int, 0int,
{
    if let Value::Ref(id) = v {
        if !(data_at(s.entries, id) is Cell) {
            lemma_more_fuel_data(s, data_at(s.entries, id), fuel, more);
        }
    }
}

proof fn lemma_more_fuel_data<T: ResourceTracker>(s: Scene<T>, data: HeapData, fuel: nat, more: nat)
    requires
        own_data_hash(s, data, fuel) is Some,
        fuel <= more,
    ensures
        own_data_hash(s, data, more) == own_data_hash(s, data, fuel),
    decreases fuel, 1int, 0int,
{
    if let Some((tag, items)) = tagged_items(data) {
        lemma_more_fuel_items(s, seq![word(tag)], items, 0, (fuel - 1) as nat, (more - 1) as nat);
    } else if let HeapData::FrozenSet(fs) = data {
        lemma_more_fuel_xor(s, 0, fs.storage.items@, 0, (fuel - 1) as nat, (more - 1) as nat);
    }
}

proof fn lemma_more_fuel_items<T: ResourceTracker>(
    s: Scene<T>,
    pieces: Seq<Seq<u8>>,
    items: Seq<Value>,
    i: nat,
    fuel: nat,
    more: nat,
)
    requires
        own_items_hash(s, pieces, items, i, fuel) is Some,
        fuel <= more,
    ensures
        own_items_hash(s, pieces, items, i, more) == own_items_hash(s, pieces, items, i, fuel),
    decreases fuel, 3int, items.len() - i,
{
    if i < items.len() {
        lemma_more_fuel(s, items[i as int], fuel, more);
        if let Some(Some(h)) = own_hash(s, items[i as int], fuel) {
            lemma_more_fuel_items(s, pieces.push(word(h)), items, i + 1, fuel, more);
        }
    }
}

proof fn lemma_more_fuel_xor<T: ResourceTracker>(
    s: Scene<T>,
    acc: u64,
    items: Seq<Value>,
    i: nat,
    fuel: nat,
    more: nat,
)
    requires
        own_xor(s, acc, items, i, fuel) is Some,
        fuel <= more,
    ensures
        own_xor(s, acc, items, i, more) == own_xor(s, acc, items, i, fuel),
    decreases fuel, 3int, items.len() - i,
{
    if i < items.len() {
        lemma_more_fuel(s, items[i as int], fuel, more);
        if let Some(Some(h)) = own_hash(s, items[i as int], fuel) {
            lemma_more_fuel_xor(s, acc ^ h, items, i + 1, fuel, more);
        }
    }
}

// ---------------------------------------------------------------------------
// Hashing gives a value's own hash
// ---------------------------------------------------------------------------

/// What is hashed is among what is compared.
proof fn lemma_hashed_elements<T: ResourceTracker>(s: Scene<T>, data: HeapData)
    requires
        s.payload_at_hand(Walk::Compare, data),
    ensures
        s.all_at_hand(Walk::Compare, hashed_items(data)),
{
    assert(hashed_items(data).len() == 0 || hashed_items(data) == elements(data));
}

proof fn lemma_own_value<T: ResourceTracker>(s: Scene<T>, e: Entries, v: Value, depth: usize, h: Option<u64>)
    requires
        s.at_hand(Walk::Compare, v),
        s.at_hand(Walk::Hash, v),
        remembers_rightly(s, e),
        hash_value(s, e, v, depth).1 == Ok::<Option<u64>, ResourceError>(h),
    ensures
        remembers_rightly(s, hash_value(s, e, v, depth).0),
        hashes_to(s, v, h),
    decreases usize::MAX - depth, 2int, 0int,
{
    if let Value::Ref(id) = v {
        let i = id.0 as int;
        let _ = e[i];
        lemma_at_hand(s, Walk::Compare, v);
        lemma_at_hand(s, Walk::Hash, v);
        assert(readable(s.entries, id) && readable(e, id));
        assert(data_at(e, id) == data_at(s.entries, id));
        let data = data_at(s.entries, id);
        lemma_hashed_elements(s, data);
        match e[i]->0.hash_state {
            HashState::Unknown => {
                if data is Cell {
                    assert(settles(s, v, h, 0));
                    lemma_remembered(s, e, id, h);
                } else {
                    let after = hash_data(s, e, data, depth).0;
                    lemma_keeps_data(s, e, data, depth);
                    lemma_own_data(s, e, data, depth, h);
                    let fuel = choose|fuel: nat| data_settles(s, data, h, fuel);
                    assert(settles(s, v, h, fuel));
                    lemma_remembered(s, after, id, h);
                }
            },
            _ => {},
        }
    } else {
        assert(settles(s, v, h, 0));
    }
}

/// Remembering a value's own hash is right.
proof fn lemma_remembered<T: ResourceTracker>(s: Scene<T>, e: Entries, id: HeapId, h: Option<u64>)
    requires
        remembers_rightly(s, e),
        readable(e, id),
        hashes_to(s, Value::Ref(id), h),
    ensures
        remembers_rightly(s, with_state(e, id, state_of(h))),
{
    let after = with_state(e, id, state_of(h));
    assert(rehashed(e, after));
    lemma_rehashed_trans(s.entries, e, after);
    assert forall|x: HeapId| #[trigger] readable(after, x) implies match after[x.0 as int]->0.hash_state {
        HashState::Unknown => true,
        HashState::Cached(g) => hashes_to(s, Value::Ref(x), Some(g)),
        HashState::Unhashable => hashes_to(s, Value::Ref(x), None),
    } by {
        assert(readable(e, x));
        if x.0 == id.0 {
            assert(x == id);
        }
    }
}

proof fn lemma_own_data<T: ResourceTracker>(s: Scene<T>, e: Entries, data: HeapData, depth: usize, h: Option<u64>)
    requires
        s.all_at_hand(Walk::Compare, hashed_items(data)),
        s.all_at_hand(Walk::Hash, hashed_items(data)),
        remembers_rightly(s, e),
        hash_data(s, e, data, depth).1 == Ok::<Option<u64>, ResourceError>(h),
    ensures
        remembers_rightly(s, hash_data(s, e, data, depth).0),
        exists|fuel: nat| data_settles(s, data, h, fuel),
    decreases usize::MAX - depth, 0int, 0int,
{
    if let Some((tag, items)) = tagged_items(data) {
        assert(deeper(s.tracker, depth) is Ok);
        lemma_own_items(s, e, seq![word(tag)], items, 0, (depth + 1) as usize, h);
        let fuel = choose|fuel: nat| items_settle(s, seq![word(tag)], items, 0, h, fuel);
        assert(data_settles(s, data, h, fuel + 1));
    } else if let HeapData::FrozenSet(fs) = data {
        assert(deeper(s.tracker, depth) is Ok);
        lemma_own_xor(s, e, 0, fs.storage.items@, 0, (depth + 1) as usize, h);
        let fuel = choose|fuel: nat| xor_settles(s, 0, fs.storage.items@, 0, h, fuel);
        assert(data_settles(s, data, h, fuel + 1));
    } else {
        assert(data_settles(s, data, h, 0));
    }
}

proof fn lemma_own_items<T: ResourceTracker>(
    s: Scene<T>,
    e: Entries,
    pieces: Seq<Seq<u8>>,
    items: Seq<Value>,
    i: nat,
    depth: usize,
    h: Option<u64>,
)
    requires
        s.all_at_hand(Walk::Compare, items),
        s.all_at_hand(Walk::Hash, items),
        remembers_rightly(s, e),
        hash_items(s, e, pieces, items, i, depth).1 == Ok::<Option<u64>, ResourceError>(h),
    ensures
        remembers_rightly(s, hash_items(s, e, pieces, items, i, depth).0),
        exists|fuel: nat| items_settle(s, pieces, items, i, h, fuel),
    decreases usize::MAX - depth, 3int, items.len() - i,
{
    if i < items.len() {
        let v = items[i as int];
        let (after, r) = hash_value(s, e, v, depth);
        lemma_own_value(s, e, v, depth, r->Ok_0);
        let one = choose|fuel: nat| settles(s, v, r->Ok_0, fuel);
        if let Ok(Some(g)) = r {
            lemma_own_items(s, after, pieces.push(word(g)), items, i + 1, depth, h);
            let next = i + 1;
            let rest = choose|fuel: nat| items_settle(s, pieces.push(word(g)), items, next, h, fuel);
            let both = if one < rest { rest } else { one };
            lemma_more_fuel(s, v, one, both);
            lemma_more_fuel_items(s, pieces.push(word(g)), items, i + 1, rest, both);
            assert(items_settle(s, pieces, items, i, h, both));
        } else {
            assert(items_settle(s, pieces, items, i, h, one));
        }
    } else {
        assert(items_settle(s, pieces, items, i, h, 0));
    }
}

proof fn lemma_own_xor<T: ResourceTracker>(
    s: Scene<T>,
    e: Entries,
    acc: u64,
    items: Seq<Value>,
    i: nat,
    depth: usize,
    h: Option<u64>,
)
    requires
        s.all_at_hand(Walk::Compare, items),
        s.all_at_hand(Walk::Hash, items),
        remembers_rightly(s, e),
        xor_items(s, e, acc, items, i, depth).1 == Ok::<Option<u64>, ResourceError>(h),
    ensures
        remembers_rightly(s, xor_items(s, e, acc, items, i, depth).0),
        exists|fuel: nat| xor_settles(s, acc, items, i, h, fuel),
    decreases usize::MAX - depth, 3int, items.len() - i,
{
    if i < items.len() {
        let v = items[i as int];
        let (after, r) = hash_value(s, e, v, depth);
        lemma_own_value(s, e, v, depth, r->Ok_0);
        let one = choose|fuel: nat| settles(s, v, r->Ok_0, fuel);
        if let Ok(Some(g)) = r {
            lemma_own_xor(s, after, acc ^ g, items, i + 1, depth, h);
            let (sum, next) = (acc ^ g, i + 1);
            let rest = choose|fuel: nat| xor_settles(s, sum, items, next, h, fuel);
            let both = if one < rest { rest } else { one };
            lemma_more_fuel(s, v, one, both);
            lemma_more_fuel_xor(s, acc ^ g, items, i + 1, rest, both);
            assert(xor_settles(s, acc, items, i, h, both));
        } else {
            assert(xor_settles(s, acc, items, i, h, one));
        }
    } else {
        assert(xor_settles(s, acc, items, i, h, 0));
    }
}

/// Hashing a value gives the hash that it has by itself, and leaves right what entries
/// remember; so the answer does not depend on what was hashed before, nor on the depth.
pub proof fn hashes_do_not_depend_on_history<T: ResourceTracker>(
    s: Scene<T>,
    one: Entries,
    other: Entries,
    v: Value,
    depth: usize,
    later: usize,
)
    requires
        s.at_hand(Walk::Compare, v),
        s.at_hand(Walk::Hash, v),
        remembers_rightly(s, one),
        remembers_rightly(s, other),
        hash_value(s, one, v, depth).1 is Ok,
        hash_value(s, other, v, later).1 is Ok,
    ensures
        hash_value(s, one, v, depth).1 == hash_value(s, other, v, later).1,
        remembers_rightly(s, hash_value(s, one, v, depth).0),
{
    let g = hash_value(s, one, v, depth).1->Ok_0;
    let h = hash_value(s, other, v, later).1->Ok_0;
    lemma_own_value(s, one, v, depth, g);
    lemma_own_value(s, other, v, later, h);
    lemma_one_hash(s, v, g, h);
}

/// A value has one hash by itself.
proof fn lemma_one_hash<T: ResourceTracker>(s: Scene<T>, v: Value, g: Option<u64>, h: Option<u64>)
    requires
        hashes_to(s, v, g),
        hashes_to(s, v, h),
    ensures
        g == h,
{
    let a = choose|fuel: nat| settles(s, v, g, fuel);
    let b = choose|fuel: nat| settles(s, v, h, fuel);
    if a < b {
        lemma_more_fuel(s, v, a, b);
    } else {
        lemma_more_fuel(s, v, b, a);
    }
}

// ---------------------------------------------------------------------------
// Order does not matter
// ---------------------------------------------------------------------------

/// The exclusive or of what `g` gives for some values.
pub open spec fn xor_all(g: spec_fn(Value) -> u64, vs: Seq<Value>) -> u64
    decreases vs.len(),
{
    if vs.len() == 0 {
        0
    } else {
        g(vs[0]) ^ xor_all(g, vs.drop_first())
    }
}

proof fn lemma_xor_remove(g: spec_fn(Value) -> u64, vs: Seq<Value>, p: int)
    requires
        0 <= p < vs.len(),
    ensures
        xor_all(g, vs) == g(vs[p]) ^ xor_all(g, vs.remove(p)),
    decreases p,
{
    if p == 0 {
        assert(vs.remove(0) =~= vs.drop_first());
    } else {
        let rest = vs.drop_first();
        lemma_xor_remove(g, rest, p - 1);
        assert(vs.remove(p).drop_first() =~= rest.remove(p - 1));
        let (a, b, c) = (g(vs[0]), g(vs[p]), xor_all(g, rest.remove(p - 1)));
        assert(a ^ (b ^ c) == b ^ (a ^ c)) by (bit_vector);
    }
}

proof fn lemma_xor_order(g: spec_fn(Value) -> u64, xs: Seq<Value>, ys: Seq<Value>)
    requires
        xs.to_multiset() == ys.to_multiset(),
    ensures
        xor_all(g, xs) == xor_all(g, ys),
    decreases xs.len(),
{
    xs.to_multiset_ensures();
    ys.to_multiset_ensures();
    if xs.len() > 0 {
        let a = xs[0];
        assert(xs.contains(a));
        assert(ys.to_multiset().count(a) > 0);
        assert(ys.contains(a));
        let p = choose|p: int| 0 <= p < ys.len() && ys[p] == a;
        assert(xs.remove(0) =~= xs.drop_first());
        assert(xs.remove(0).to_multiset() =~= xs.to_multiset().remove(a));
        assert(ys.remove(p).to_multiset() =~= ys.to_multiset().remove(a));
        lemma_xor_order(g, xs.drop_first(), ys.remove(p));
        lemma_xor_remove(g, ys, p);
    }
}

/// The hash of a value that has one.
spec fn known_hash<T: ResourceTracker>(s: Scene<T>, fuel: nat) -> spec_fn(Value) -> u64 {
    |v: Value| own_hash(s, v, fuel)->0->0
}

/// An exclusive or that is there takes in the hash of every item.
proof fn lemma_xor_known<T: ResourceTracker>(s: Scene<T>, acc: u64, items: Seq<Value>, i: nat, fuel: nat, h: u64)
    requires
        own_xor(s, acc, items, i, fuel) == Some(Some(h)),
        i <= items.len(),
    ensures
        h == acc ^ xor_all(known_hash(s, fuel), items.skip(i as int)),
        forall|k: int| i <= k < items.len() ==> own_hash(s, #[trigger] items[k], fuel) matches Some(Some(_)),
    decreases items.len() - i,
{
    let g = known_hash(s, fuel);
    let rest = items.skip(i as int);
    if i < items.len() {
        let one = own_hash(s, items[i as int], fuel)->0->0;
        lemma_xor_known(s, acc ^ one, items, i + 1, fuel, h);
        assert(rest.drop_first() =~= items.skip((i + 1) as int));
        let tail = xor_all(g, rest.drop_first());
        assert((acc ^ one) ^ tail == acc ^ (one ^ tail)) by (bit_vector);
    } else {
        assert(acc ^ 0 == acc) by (bit_vector);
    }
}

/// Where an item cannot be hashed, there is no exclusive or.
proof fn lemma_xor_unknown<T: ResourceTracker>(s: Scene<T>, acc: u64, items: Seq<Value>, i: nat, fuel: nat)
    requires
        own_xor(s, acc, items, i, fuel) == Some(None::<u64>),
    ensures
        exists|k: int| i <= k < items.len() && own_hash(s, #[trigger] items[k], fuel) == Some(None::<u64>),
    decreases items.len() - i,
{
    if i < items.len() {
        if let Some(Some(h)) = own_hash(s, items[i as int], fuel) {
            lemma_xor_unknown(s, acc ^ h, items, i + 1, fuel);
        } else {
            assert(own_hash(s, items[i as int], fuel) == Some(None::<u64>));
        }
    }
}

/// What cannot be hashed in one order cannot be hashed in another.
proof fn lemma_unknown_stays<T: ResourceTracker>(s: Scene<T>, xs: Seq<Value>, ys: Seq<Value>, fuel: nat)
    requires
        xs.to_multiset() == ys.to_multiset(),
        own_xor(s, 0, xs, 0, fuel) == Some(None::<u64>),
    ensures
        own_xor(s, 0, ys, 0, fuel) matches Some(r) ==> r is None,
{
    if let Some(Some(h)) = own_xor(s, 0, ys, 0, fuel) {
        lemma_xor_unknown(s, 0, xs, 0, fuel);
        lemma_xor_known(s, 0, ys, 0, fuel, h);
        let k = choose|k: int| 0 <= k < xs.len() && own_hash(s, #[trigger] xs[k], fuel) == Some(None::<u64>);
        xs.to_multiset_ensures();
        ys.to_multiset_ensures();
        assert(xs.contains(xs[k]));
        assert(ys.to_multiset().count(xs[k]) > 0);
        assert(ys.contains(xs[k]));
        let p = choose|p: int| 0 <= p < ys.len() && ys[p] == xs[k];
        assert(own_hash(s, ys[p], fuel) matches Some(Some(_)));
    }
}

/// Frozensets with the same items hash alike, whatever the order of the items, what was
/// hashed before, and the depth.
pub proof fn frozen_sets_hash_without_order<T: ResourceTracker>(
    s: Scene<T>,
    one: Entries,
    other: Entries,
    x: FrozenSet,
    y: FrozenSet,
    depth: usize,
    later: usize,
)
    requires
        s.all_at_hand(Walk::Compare, x.storage.items@),
        s.all_at_hand(Walk::Hash, x.storage.items@),
        s.all_at_hand(Walk::Compare, y.storage.items@),
        s.all_at_hand(Walk::Hash, y.storage.items@),
        x.storage.items@.to_multiset() == y.storage.items@.to_multiset(),
        remembers_rightly(s, one),
        remembers_rightly(s, other),
        hash_data(s, one, HeapData::FrozenSet(x), depth).1 is Ok,
        hash_data(s, other, HeapData::FrozenSet(y), later).1 is Ok,
    ensures
        hash_data(s, one, HeapData::FrozenSet(x), depth).1 == hash_data(s, other, HeapData::FrozenSet(y), later).1,
{
    let xs = x.storage.items@;
    let ys = y.storage.items@;
    let g = hash_data(s, one, HeapData::FrozenSet(x), depth).1->Ok_0;
    let h = hash_data(s, other, HeapData::FrozenSet(y), later).1->Ok_0;
    lemma_own_xor(s, one, 0, xs, 0, (depth + 1) as usize, g);
    lemma_own_xor(s, other, 0, ys, 0, (later + 1) as usize, h);
    let a = choose|fuel: nat| xor_settles(s, 0, xs, 0, g, fuel);
    let b = choose|fuel: nat| xor_settles(s, 0, ys, 0, h, fuel);
    let f = if a < b { b } else { a };
    lemma_more_fuel_xor(s, 0, xs, 0, a, f);
    lemma_more_fuel_xor(s, 0, ys, 0, b, f);
    match (g, h) {
        (Some(m), Some(n)) => {
            lemma_xor_known(s, 0, xs, 0, f, m);
            lemma_xor_known(s, 0, ys, 0, f, n);
            assert(xs.skip(0) =~= xs && ys.skip(0) =~= ys);
            lemma_xor_order(known_hash(s, f), xs, ys);
        },
        (None, _) => {
            lemma_unknown_stays(s, xs, ys, f);
        },
        (_, None) => {
            lemma_unknown_stays(s, ys, xs, f);
        },
    }
}

/// On a heap where nothing was hashed yet, everything that entries remember is right.
pub proof fn new_entries_remember_rightly<T: ResourceTracker>(s: Scene<T>)
    requires
        forall|id: HeapId| #[trigger]
            readable(s.entries, id) ==> s.entries[id.0 as int]->0.hash_state == HashState::initial(
                data_at(s.entries, id),
            ),
    ensures
        remembers_rightly(s, s.entries),
{
    assert forall|id: HeapId| #[trigger] readable(s.entries, id) implies match s.entries[id.0 as int]->0.hash_state {
        HashState::Unknown => true,
        HashState::Cached(h) => hashes_to(s, Value::Ref(id), Some(h)),
        HashState::Unhashable => hashes_to(s, Value::Ref(id), None),
    } by {
        if !may_be_hashed(data_at(s.entries, id)) {
            assert(settles(s, Value::Ref(id), None, 0));
        }
    }
}

/// Down to `n` levels of nesting, are the containers that can be hashed all tuples?
pub open spec fn nests_tuples<T: ResourceTracker>(s: Scene<T>, v: Value, n: nat) -> bool
    decreases n,
{
    v matches Value::Ref(id) ==> match data_at(s.entries, id) {
        HeapData::Tuple(t) => n > 0 ==> forall|i: int|
            0 <= i < t@.len() ==> nests_tuples(s, #[trigger] t@[i], (n - 1) as nat),
        HeapData::NamedTuple(nt) => n > 0 ==> forall|i: int|
            0 <= i < nt.items@.len() ==> nests_tuples(s, #[trigger] nt.items@[i], (n - 1) as nat),
        HeapData::FrozenSet(_) | HeapData::Dataclass(_) => false,
        _ => true,
    }
}

/// Down to `n` levels of nesting, is there neither a frozen set nor a dataclass?
pub open spec fn tuples_to<T: ResourceTracker>(s: Scene<T>, v: Value, n: nat) -> bool {
    nests_tuples(s, v, n)
}

/// Does the value hold neither a frozen set nor a dataclass, at any depth?
///
/// Plain values, and tuples and named tuples of them, nested at will, are such values.
pub open spec fn only_tuples<T: ResourceTracker>(s: Scene<T>, v: Value) -> bool {
    forall|n: nat| #[trigger] tuples_to(s, v, n)
}

/// Values that are equal hash alike: plain values, and tuples and named tuples that
/// hold such values.
pub proof fn equal_values_hash_alike<T: ResourceTracker>(
    s: Scene<T>,
    a: Value,
    b: Value,
    depth: usize,
    g: Option<u64>,
    h: Option<u64>,
)
    requires
        only_tuples(s, a),
        only_tuples(s, b),
        s.eq_values(a, b, depth) == Ok::<bool, ResourceError>(true),
        hashes_to(s, a, g),
        hashes_to(s, b, h),
    ensures
        g == h,
{
    let x = choose|fuel: nat| settles(s, a, g, fuel);
    let y = choose|fuel: nat| settles(s, b, h, fuel);
    let f = if x < y { y } else { x };
    lemma_more_fuel(s, a, x, f);
    lemma_more_fuel(s, b, y, f);
    assert(tuples_to(s, a, f) && tuples_to(s, b, f));
    lemma_equal_values(s, a, b, depth, f);
}

proof fn lemma_equal_values<T: ResourceTracker>(s: Scene<T>, a: Value, b: Value, depth: usize, fuel: nat)
    requires
        nests_tuples(s, a, fuel),
        nests_tuples(s, b, fuel),
        s.eq_values(a, b, depth) == Ok::<bool, ResourceError>(true),
        own_hash(s, a, fuel) is Some,
        own_hash(s, b, fuel) is Some,
    ensures
        own_hash(s, a, fuel) == own_hash(s, b, fuel),
    decreases fuel, 0int, 0int,
{
    if a != b {
        if let (Value::Ref(p), Value::Ref(q)) = (a, b) {
            let (d, e) = (data_at(s.entries, p), data_at(s.entries, q));
            if let (Some((tag, xs)), Some((other, ys))) = (tagged_items(d), tagged_items(e)) {
                let rest = (fuel - 1) as nat;
                assert forall|i: int| 0 <= i < xs.len() implies nests_tuples(s, #[trigger] xs[i], rest) by {}
                assert forall|i: int| 0 <= i < ys.len() implies nests_tuples(s, #[trigger] ys[i], rest) by {}
                if d is Tuple && e is NamedTuple {
                    lemma_equal_items(s, seq![word(tag)], ys, xs, 0, (depth + 1) as usize, rest);
                } else {
                    lemma_equal_items(s, seq![word(tag)], xs, ys, 0, (depth + 1) as usize, rest);
                }
            }
        }
    }
}

proof fn lemma_equal_items<T: ResourceTracker>(
    s: Scene<T>,
    pieces: Seq<Seq<u8>>,
    xs: Seq<Value>,
    ys: Seq<Value>,
    i: nat,
    depth: usize,
    fuel: nat,
)
    requires
        xs.len() == ys.len(),
        forall|k: int| 0 <= k < xs.len() ==> nests_tuples(s, #[trigger] xs[k], fuel),
        forall|k: int| 0 <= k < ys.len() ==> nests_tuples(s, #[trigger] ys[k], fuel),
        s.eq_items(xs, ys, i, depth) == Ok::<bool, ResourceError>(true),
        own_items_hash(s, pieces, xs, i, fuel) is Some,
        own_items_hash(s, pieces, ys, i, fuel) is Some,
    ensures
        own_items_hash(s, pieces, xs, i, fuel) == own_items_hash(s, pieces, ys, i, fuel),
    decreases fuel, 1int, xs.len() - i,
{
    if i < xs.len() {
        lemma_equal_values(s, xs[i as int], ys[i as int], depth, fuel);
        if let Some(Some(h)) = own_hash(s, xs[i as int], fuel) {
            lemma_equal_items(s, pieces.push(word(h)), xs, ys, i + 1, depth, fuel);
        }
    }
}

// ---------------------------------------------------------------------------
// Equal frozen sets
// ---------------------------------------------------------------------------

proof fn lemma_sequences_nest_tuples<T: ResourceTracker>(s: Scene<T>, v: Value, n: nat)
    requires
        nests_sequences(s, v, n),
    ensures
        nests_tuples(s, v, n),
    decreases n,
{
    if let Value::Ref(id) = v {
        if n > 0 {
            if let Some(items) = ordered_items(data_at(s.entries, id)) {
                assert forall|i: int| 0 <= i < items.len() implies nests_tuples(s, #[trigger] items[i], (n - 1) as nat) by {
                    lemma_sequences_nest_tuples(s, items[i], (n - 1) as nat);
                }
            }
        }
    }
}

/// Do the items differ from each other, as those of a set do?
pub open spec fn all_different<T: ResourceTracker>(s: Scene<T>, items: Seq<Value>, depth: usize) -> bool {
    forall|i: int, j: int|
        0 <= i < j < items.len() ==> !#[trigger] equal(s, items[i], items[j], depth)
}

proof fn lemma_found<T: ResourceTracker>(s: Scene<T>, v: Value, ys: Seq<Value>, i: nat, depth: usize)
    ensures
        s.find(v, ys, i, depth) matches Ok(Some(k)) ==> i <= k < ys.len() && equal(s, v, ys[k as int], depth),
    decreases ys.len() - i,
{
    if i < ys.len() {
        lemma_found(s, v, ys, i + 1, depth);
    }
}

/// Where an item of `xs` is found among `ys`.
spec fn partner<T: ResourceTracker>(s: Scene<T>, xs: Seq<Value>, ys: Seq<Value>, i: int, depth: usize) -> int {
    s.find(xs[i], ys, 0, depth)->Ok_0->0 as int
}

proof fn lemma_partners<T: ResourceTracker>(s: Scene<T>, xs: Seq<Value>, ys: Seq<Value>, i: nat, depth: usize)
    requires
        s.subset_from(xs, ys, i, depth) == Ok::<bool, ResourceError>(true),
    ensures
        forall|k: int| i <= k < xs.len() ==> {
            let p = #[trigger] partner(s, xs, ys, k, depth);
            0 <= p < ys.len() && equal(s, xs[k], ys[p], depth)
        },
    decreases xs.len() - i,
{
    if i < xs.len() {
        lemma_found(s, xs[i as int], ys, 0, depth);
        lemma_partners(s, xs, ys, i + 1, depth);
    }
}

/// Numbers below `n` that all differ, `n` of them, are all the numbers below `n`.
proof fn lemma_all_taken(order: Seq<int>, n: nat, k: int)
    requires
        order.len() == n,
        order.no_duplicates(),
        forall|i: int| 0 <= i < n ==> 0 <= #[trigger] order[i] < n,
        0 <= k < n,
    ensures
        order.contains(k),
{
    let all = vstd::set_lib::set_int_range(0, n as int);
    vstd::set_lib::lemma_int_range(0, n as int);
    order.unique_seq_to_set();
    assert(order.to_set().subset_of(all)) by {
        assert forall|x: int| #[trigger] order.to_set().contains(x) implies all.contains(x) by {
            assert(order.contains(x));
        }
    }
    vstd::set_lib::lemma_subset_equality(order.to_set(), all);
    assert(all.contains(k));
    assert(order.to_set().contains(k));
}

/// Values whose partners have the same hashes have the same exclusive or.
proof fn lemma_xor_paired(g: spec_fn(Value) -> u64, xs: Seq<Value>, ys: Seq<Value>, order: Seq<int>)
    requires
        xs.len() == ys.len(),
        order.len() == xs.len(),
        order.no_duplicates(),
        forall|i: int| 0 <= i < xs.len() ==> 0 <= #[trigger] order[i] < ys.len() && g(xs[i]) == g(ys[order[i]]),
    ensures
        xor_all(g, xs) == xor_all(g, ys),
    decreases xs.len(),
{
    if xs.len() > 0 {
        let p = order[0];
        let less = Seq::new(
            (order.len() - 1) as nat,
            |i: int| if order[i + 1] > p { order[i + 1] - 1 } else { order[i + 1] },
        );
        let (us, vs) = (xs.drop_first(), ys.remove(p));
        assert forall|i: int| 0 <= i < us.len() implies 0 <= #[trigger] less[i] < vs.len() && g(us[i]) == g(
            vs[less[i]],
        ) by {
            let next = i + 1;
            assert(0 <= order[next] < ys.len() && g(xs[next]) == g(ys[order[next]]));
            assert(order[next] != order[0]);
        }
        assert(less.no_duplicates()) by {
            assert forall|i: int, j: int| 0 <= i < less.len() && 0 <= j < less.len() && i != j implies less[i]
                != less[j] by {
                assert(order[i + 1] != order[j + 1]);
                assert(order[i + 1] != order[0] && order[j + 1] != order[0]);
            }
        }
        lemma_xor_paired(g, us, vs, less);
        lemma_xor_remove(g, ys, p);
    }
}

/// Frozen sets that are equal hash alike, where their items hold no mapping, set or
/// dataclass.
pub proof fn equal_frozen_sets_hash_alike<T: ResourceTracker>(
    s: Scene<T>,
    a: Value,
    b: Value,
    x: FrozenSet,
    y: FrozenSet,
    depth: usize,
    g: Option<u64>,
    h: Option<u64>,
)
    requires
        a matches Value::Ref(p) && data_at(s.entries, p) == HeapData::FrozenSet(x),
        b matches Value::Ref(q) && data_at(s.entries, q) == HeapData::FrozenSet(y),
        forall|i: int| 0 <= i < x.storage.items@.len() ==> only_sequences(s, #[trigger] x.storage.items@[i]),
        forall|i: int| 0 <= i < y.storage.items@.len() ==> only_sequences(s, #[trigger] y.storage.items@[i]),
        depth < usize::MAX,
        all_different(s, x.storage.items@, (depth + 1) as usize),
        s.eq_values(a, b, depth) == Ok::<bool, ResourceError>(true),
        hashes_to(s, a, g),
        hashes_to(s, b, h),
    ensures
        g == h,
{
    if a == b {
        lemma_one_hash(s, a, g, h);
    } else {
        let (xs, ys) = (x.storage.items@, y.storage.items@);
        let next = (depth + 1) as usize;
        assert(s.eq_data(HeapData::FrozenSet(x), HeapData::FrozenSet(y), depth) == Ok::<bool, ResourceError>(true));
        lemma_partners(s, xs, ys, 0, next);
        let order = Seq::new(xs.len(), |i: int| partner(s, xs, ys, i, next));
        assert forall|i: int| 0 <= i < xs.len() implies 0 <= #[trigger] order[i] < ys.len() && equal(
            s,
            xs[i],
            ys[order[i]],
            next,
        ) by {
            assert(order[i] == partner(s, xs, ys, i, next));
        }
        assert forall|i: int, j: int| 0 <= i < j < xs.len() implies order[i] != order[j] by {
            if order[i] == order[j] {
                let k = order[i];
                assert(equal(s, xs[i], ys[k], next) && equal(s, xs[j], ys[order[j]], next));
                equality_is_symmetric(s, xs[j], ys[k], next);
                equality_is_transitive(s, xs[i], ys[k], xs[j], next);
                assert(!equal(s, xs[i], xs[j], next));
            }
        }
        assert(order.no_duplicates());
        let m = choose|fuel: nat| settles(s, a, g, fuel);
        let n = choose|fuel: nat| settles(s, b, h, fuel);
        let f = if m < n { n } else { m };
        lemma_more_fuel(s, a, m, f);
        lemma_more_fuel(s, b, n, f);
        let rest = (f - 1) as nat;
        assert(own_xor(s, 0, xs, 0, rest) == Some(g));
        assert(own_xor(s, 0, ys, 0, rest) == Some(h));
        assert forall|i: int|
            #![trigger order[i]]
            0 <= i < xs.len() && own_hash(s, xs[i], rest) is Some && own_hash(s, ys[order[i]], rest) is Some implies own_hash(
            s,
            xs[i],
            rest,
        ) == own_hash(s, ys[order[i]], rest) by {
            assert(equal(s, xs[i], ys[order[i]], next));
            assert(sequences_to(s, xs[i], rest) && sequences_to(s, ys[order[i]], rest));
            lemma_sequences_nest_tuples(s, xs[i], rest);
            lemma_sequences_nest_tuples(s, ys[order[i]], rest);
            lemma_equal_values(s, xs[i], ys[order[i]], next, rest);
        }
        match (g, h) {
            (Some(u), Some(v)) => {
                lemma_xor_known(s, 0, xs, 0, rest, u);
                lemma_xor_known(s, 0, ys, 0, rest, v);
                assert(xs.skip(0) =~= xs && ys.skip(0) =~= ys);
                let k = known_hash(s, rest);
                assert forall|i: int| 0 <= i < xs.len() implies 0 <= #[trigger] order[i] < ys.len() && k(xs[i]) == k(
                    ys[order[i]],
                ) by {
                    assert(own_hash(s, xs[i], rest) matches Some(Some(_)));
                    assert(own_hash(s, ys[order[i]], rest) matches Some(Some(_)));
                }
                lemma_xor_paired(k, xs, ys, order);
            },
            (None, Some(v)) => {
                lemma_xor_unknown(s, 0, xs, 0, rest);
                lemma_xor_known(s, 0, ys, 0, rest, v);
                let i = choose|i: int| 0 <= i < xs.len() && own_hash(s, #[trigger] xs[i], rest) == Some(None::<u64>);
                assert(0 <= order[i] < ys.len());
                assert(own_hash(s, ys[order[i]], rest) matches Some(Some(_)));
            },
            (Some(u), None) => {
                lemma_xor_known(s, 0, xs, 0, rest, u);
                lemma_xor_unknown(s, 0, ys, 0, rest);
                let j = choose|j: int| 0 <= j < ys.len() && own_hash(s, #[trigger] ys[j], rest) == Some(None::<u64>);
                lemma_all_taken(order, xs.len(), j);
                let i = choose|i: int| 0 <= i < order.len() && order[i] == j;
                assert(own_hash(s, xs[i], rest) matches Some(Some(_)));
            },
            (None, None) => {},
        }
    }
}

} // verus!
