//! What has to be in its place for a walk over values.
//!
//! Comparing, hashing and showing a value read what the value holds, what that holds, and
//! so on. Payloads elsewhere on the heap may be on loan meanwhile.

use crate::equality::{Scene, elements, keys};
use crate::hash::{has_name, rehashed, tagged_items};
use crate::heap::HashState;
use crate::heap_data::HeapData;
use crate::heap_model::{data_at, live, readable};
use crate::resource::ResourceTracker;
use crate::types::mappings::{DictEntry, flat, lemma_flat_index};
use crate::value::{HeapId, Value};
use vstd::prelude::*;

verus! {

/// What a walk over values is for.
pub enum Walk {
    Compare,
    Hash,
    Show,
}

/// The values that a walk goes on to from a payload.
pub open spec fn walked(walk: Walk, data: HeapData) -> Seq<Value> {
    match walk {
        Walk::Hash => hashed_items(data),
        _ => elements(data),
    }
}

/// The values that a payload is hashed by.
pub open spec fn hashed_items(data: HeapData) -> Seq<Value> {
    match tagged_items(data) {
        Some((_, items)) => items,
        None => match data {
            HeapData::FrozenSet(fs) => fs.storage.items@,
            _ => Seq::empty(),
        },
    }
}

impl<T: ResourceTracker> Scene<T> {
    /// Do the names that the walk needs of a payload lead to texts?
    pub open spec fn named_for(self, walk: Walk, data: HeapData) -> bool {
        match walk {
            Walk::Compare => true,
            Walk::Hash => data matches HeapData::Class(c) ==> has_name(self.tables, c.name),
            Walk::Show => self.names_in(data),
        }
    }

    /// Does the walk pass an entry by without reading it? Hashing does so where the
    /// entry remembers an answer.
    pub open spec fn passes_by(self, walk: Walk, id: HeapId) -> bool {
        walk is Hash && self.entries[id.0 as int]->0.hash_state != HashState::Unknown
    }

    /// Does the value lead into the region, or to an interned literal?
    pub open spec fn leads_into(self, region: Set<HeapId>, v: Value) -> bool {
        match v {
            Value::Ref(id) => region.contains(id),
            _ => self.has(v),
        }
    }

    /// Can a walk be confined to the region? What it reads there is in its place, and
    /// leads nowhere else.
    pub open spec fn closed(self, walk: Walk, region: Set<HeapId>) -> bool {
        forall|id: HeapId| #[trigger]
            region.contains(id) ==> {
                &&& live(self.entries, id)
                &&& !self.passes_by(walk, id) ==> {
                    let data = data_at(self.entries, id);
                    &&& readable(self.entries, id)
                    &&& self.named_for(walk, data)
                    &&& forall|i: int|
                        0 <= i < walked(walk, data).len() ==> self.leads_into(region, #[trigger] walked(walk, data)[i])
                }
            }
    }

    /// Can everything be read that a walk from the value comes to?
    pub open spec fn at_hand(self, walk: Walk, v: Value) -> bool {
        match v {
            Value::Ref(id) => exists|region: Set<HeapId>| #[trigger] self.closed(walk, region) && region.contains(id),
            _ => self.has(v),
        }
    }

    /// Can everything be read that a walk from any of the values comes to?
    pub open spec fn all_at_hand(self, walk: Walk, vs: Seq<Value>) -> bool {
        forall|i: int| 0 <= i < vs.len() ==> self.at_hand(walk, #[trigger] vs[i])
    }

    /// Can everything be read that a walk from the payload comes to?
    pub open spec fn payload_at_hand(self, walk: Walk, data: HeapData) -> bool {
        self.named_for(walk, data) && self.all_at_hand(walk, walked(walk, data))
    }

    /// Is every payload in its place, and does every element lead to something?
    pub open spec fn intact(self) -> bool {
        forall|id: HeapId| #[trigger]
            live(self.entries, id) ==> readable(self.entries, id) && self.has_all(elements(data_at(self.entries, id)))
    }
}

/// What is at hand can be read, and so can what it holds.
pub proof fn lemma_at_hand<T: ResourceTracker>(s: Scene<T>, walk: Walk, v: Value)
    requires
        s.at_hand(walk, v),
    ensures
        s.has(v),
        v matches Value::Ref(id) ==> live(s.entries, id) && (!s.passes_by(walk, id) ==> readable(s.entries, id)
            && s.payload_at_hand(walk, data_at(s.entries, id))),
{
    if let Value::Ref(id) = v {
        let region = choose|region: Set<HeapId>| #[trigger] s.closed(walk, region) && region.contains(id);
        if !s.passes_by(walk, id) {
            let vs = walked(walk, data_at(s.entries, id));
            assert forall|i: int| 0 <= i < vs.len() implies s.at_hand(walk, #[trigger] vs[i]) by {
                assert(s.leads_into(region, vs[i]));
            }
        }
    }
}

/// An entry that can be read, and whose contents are at hand, is at hand.
pub proof fn entries_are_at_hand_with_their_contents<T: ResourceTracker>(s: Scene<T>, walk: Walk, id: HeapId)
    requires
        live(s.entries, id),
        !s.passes_by(walk, id) ==> readable(s.entries, id) && s.payload_at_hand(walk, data_at(s.entries, id)),
    ensures
        s.at_hand(walk, Value::Ref(id)),
{
    let reached = Set::new(|x: HeapId| x == id || s.at_hand(walk, Value::Ref(x)));
    assert forall|x: HeapId| #[trigger] reached.contains(x) implies {
        &&& live(s.entries, x)
        &&& !s.passes_by(walk, x) ==> {
            let data = data_at(s.entries, x);
            &&& readable(s.entries, x)
            &&& s.named_for(walk, data)
            &&& forall|i: int|
                0 <= i < walked(walk, data).len() ==> s.leads_into(reached, #[trigger] walked(walk, data)[i])
        }
    } by {
        if x != id {
            lemma_at_hand(s, walk, Value::Ref(x));
        }
        if !s.passes_by(walk, x) {
            let vs = walked(walk, data_at(s.entries, x));
            assert forall|i: int| 0 <= i < vs.len() implies s.leads_into(reached, #[trigger] vs[i]) by {
                assert(s.at_hand(walk, vs[i]));
                lemma_at_hand(s, walk, vs[i]);
            }
        }
    }
    assert(s.closed(walk, reached));
    assert(s.leads_into(reached, Value::Ref(id)));
}

/// The keys and values of entries that are at hand are at hand.
pub proof fn lemma_keys_at_hand<T: ResourceTracker>(s: Scene<T>, walk: Walk, es: Seq<DictEntry>)
    requires
        s.all_at_hand(walk, flat(es)),
    ensures
        s.all_at_hand(walk, keys(es)),
        forall|i: int|
            0 <= i < es.len() ==> s.at_hand(walk, (#[trigger] es[i]).key) && s.at_hand(walk, es[i].value),
{
    assert forall|i: int| 0 <= i < es.len() implies s.at_hand(walk, (#[trigger] es[i]).key) && s.at_hand(
        walk,
        es[i].value,
    ) by {
        lemma_flat_index(es, i);
        assert(s.at_hand(walk, flat(es)[2 * i]));
        assert(s.at_hand(walk, flat(es)[2 * i + 1]));
    }
    assert forall|i: int| 0 <= i < keys(es).len() implies s.at_hand(walk, #[trigger] keys(es)[i]) by {
        assert(s.at_hand(walk, es[i].key));
    }
}

/// Remembering hashes takes nothing out of reach.
pub proof fn lemma_rehashed_at_hand<T: ResourceTracker>(s: Scene<T>, t: Scene<T>, walk: Walk, v: Value)
    requires
        s.at_hand(walk, v),
        rehashed(s.entries, t.entries),
        t == (Scene { entries: t.entries, ..s }),
    ensures
        t.at_hand(walk, v),
{
    let region = match v {
        Value::Ref(id) => choose|region: Set<HeapId>| #[trigger] s.closed(walk, region) && region.contains(id),
        _ => Set::empty(),
    };
    assert forall|id: HeapId| #[trigger] region.contains(id) implies {
        &&& live(t.entries, id)
        &&& !t.passes_by(walk, id) ==> {
            let data = data_at(t.entries, id);
            &&& readable(t.entries, id)
            &&& t.named_for(walk, data)
            &&& forall|i: int|
                0 <= i < walked(walk, data).len() ==> t.leads_into(region, #[trigger] walked(walk, data)[i])
        }
    } by {
        assert(live(s.entries, id));
        let _ = t.entries[id.0 as int];
        if !t.passes_by(walk, id) {
            let data = data_at(s.entries, id);
            assert(data_at(t.entries, id) == data);
            if walk is Show {
                lemma_rehashed_names(s, t, data);
            }
            assert forall|i: int| 0 <= i < walked(walk, data).len() implies t.leads_into(
                region,
                #[trigger] walked(walk, data)[i],
            ) by {
                assert(s.leads_into(region, walked(walk, data)[i]));
            }
        }
    }
    assert(t.closed(walk, region));
}

proof fn lemma_rehashed_names<T: ResourceTracker>(s: Scene<T>, t: Scene<T>, data: HeapData)
    requires
        rehashed(s.entries, t.entries),
        t == (Scene { entries: t.entries, ..s }),
        s.names_in(data),
    ensures
        t.names_in(data),
{
    if let HeapData::Cell(c) = data {
        if let Value::Ref(id) = c.0 {
            let _ = t.entries[id.0 as int];
        }
    }
}

/// Where no payload is on loan, everything is at hand for comparing.
pub proof fn whole_heaps_are_at_hand<T: ResourceTracker>(s: Scene<T>, v: Value)
    requires
        s.intact(),
        s.has(v),
    ensures
        s.at_hand(Walk::Compare, v),
{
    let all = Set::new(|id: HeapId| live(s.entries, id));
    assert forall|id: HeapId| #[trigger] all.contains(id) implies {
        let data = data_at(s.entries, id);
        &&& readable(s.entries, id)
        &&& forall|i: int| 0 <= i < elements(data).len() ==> s.leads_into(all, #[trigger] elements(data)[i])
    } by {
        let vs = elements(data_at(s.entries, id));
        assert(live(s.entries, id));
        assert forall|i: int| 0 <= i < vs.len() implies s.leads_into(all, #[trigger] vs[i]) by {
            assert(s.has(vs[i]));
        }
    }
    assert(s.closed(Walk::Compare, all));
    assert(s.leads_into(all, v));
}

/// A payload that comparing or hashing does not come to may be lent out: what was at hand
/// still is.
pub proof fn loans_elsewhere_do_not_matter<T: ResourceTracker>(
    s: Scene<T>,
    t: Scene<T>,
    walk: Walk,
    region: Set<HeapId>,
    v: Value,
)
    requires
        s.closed(walk, region),
        s.leads_into(region, v),
        !(walk is Show),
        t == (Scene { entries: t.entries, ..s }),
        t.entries.len() == s.entries.len(),
        forall|id: HeapId| #[trigger] region.contains(id) ==> t.entries[id.0 as int] == s.entries[id.0 as int],
    ensures
        t.at_hand(walk, v),
{
    assert forall|id: HeapId| #[trigger] region.contains(id) implies {
        &&& live(t.entries, id)
        &&& !t.passes_by(walk, id) ==> {
            let data = data_at(t.entries, id);
            &&& readable(t.entries, id)
            &&& t.named_for(walk, data)
            &&& forall|i: int|
                0 <= i < walked(walk, data).len() ==> t.leads_into(region, #[trigger] walked(walk, data)[i])
        }
    } by {
        if !t.passes_by(walk, id) {
            let data = data_at(s.entries, id);
            assert forall|i: int| 0 <= i < walked(walk, data).len() implies t.leads_into(
                region,
                #[trigger] walked(walk, data)[i],
            ) by {
                assert(s.leads_into(region, walked(walk, data)[i]));
            }
        }
    }
    assert(t.closed(walk, region));
}

} // verus!
