//! Looking up dictionary entries whose keys are strings.

use crate::equality::{Scene, scene};
use crate::heap::Heap;
use crate::heap_model::readable;
use crate::intern::Interns;
use crate::resource::ResourceTracker;
use crate::text::same_text;
use crate::types::mappings::{Dict, DictEntry, flat, lemma_flat_index};
use crate::value::Value;
use vstd::prelude::*;

verus! {

/// The first position from `i` on of an entry whose key is the string `t`.
pub open spec fn text_at<T: ResourceTracker>(s: Scene<T>, es: Seq<DictEntry>, t: Seq<char>, i: nat) -> Option<nat>
    decreases es.len() - i,
{
    if i >= es.len() {
        None
    } else if s.text(es[i as int].key) == Some(t) {
        Some(i)
    } else {
        text_at(s, es, t, i + 1)
    }
}

/// The value that the string `t` leads to.
pub open spec fn value_of<T: ResourceTracker>(s: Scene<T>, es: Seq<DictEntry>, t: Seq<char>) -> Option<Value> {
    match text_at(s, es, t, 0) {
        Some(i) => Some(es[i as int].value),
        None => None,
    }
}

/// Can every key and value be read?
pub open spec fn legible<T: ResourceTracker>(s: Scene<T>, vs: Seq<Value>) -> bool {
    forall|i: int|
        0 <= i < vs.len() ==> s.has(#[trigger] vs[i]) && (vs[i] matches Value::Ref(id) ==> readable(s.entries, id))
}

/// Can every key be read?
pub open spec fn keys_legible<T: ResourceTracker>(s: Scene<T>, es: Seq<DictEntry>) -> bool {
    forall|i: int|
        0 <= i < es.len() ==> s.has(#[trigger] es[i].key) && (es[i].key matches Value::Ref(id) ==> readable(
            s.entries,
            id,
        ))
}

pub proof fn lemma_keys_legible<T: ResourceTracker>(s: Scene<T>, es: Seq<DictEntry>)
    requires
        legible(s, flat(es)),
    ensures
        keys_legible(s, es),
{
    assert forall|i: int| 0 <= i < es.len() implies s.has(#[trigger] es[i].key) && (es[i].key matches Value::Ref(id)
        ==> readable(s.entries, id)) by {
        lemma_flat_index(es, i);
        assert(s.has(flat(es)[2 * i]));
    }
}

pub proof fn lemma_text_at<T: ResourceTracker>(s: Scene<T>, es: Seq<DictEntry>, t: Seq<char>, i: nat)
    ensures
        text_at(s, es, t, i) matches Some(k) ==> i <= k < es.len() && s.text(es[k as int].key) == Some(t),
        text_at(s, es, t, i) is None ==> forall|k: int| i <= k < es.len() ==> s.text(#[trigger] es[k].key) != Some(t),
    decreases es.len() - i,
{
    if i < es.len() && s.text(es[i as int].key) != Some(t) {
        lemma_text_at(s, es, t, i + 1);
    }
}

/// Where no key is the string, the search finds nothing.
pub proof fn lemma_text_missing<T: ResourceTracker>(s: Scene<T>, es: Seq<DictEntry>, t: Seq<char>, i: nat)
    requires
        forall|k: int| i <= k < es.len() ==> s.text(#[trigger] es[k].key) != Some(t),
    ensures
        text_at(s, es, t, i) is None,
    decreases es.len() - i,
{
    if i < es.len() {
        assert(s.text(es[i as int].key) != Some(t));
        lemma_text_missing(s, es, t, i + 1);
    }
}

impl Dict {
    /// Returns the position of the entry whose key is the given string.
    pub fn position_by_str<T: ResourceTracker>(&self, t: &str, heap: &Heap<T>, interns: &Interns) -> (r: Option<usize>)
        requires
            keys_legible(scene(heap@, *interns), self.entries@),
        ensures
            match text_at(scene(heap@, *interns), self.entries@, t@, 0) {
                Some(i) => r matches Some(k) && k == i && k < self.entries@.len(),
                None => r is None,
            },
    {
        let ghost s = scene(heap@, *interns);
        let mut i: usize = 0;
        while i < self.entries.len()
            invariant
                i <= self.entries@.len(),
                s == scene(heap@, *interns),
                keys_legible(s, self.entries@),
                text_at(s, self.entries@, t@, 0) == text_at(s, self.entries@, t@, i as nat),
            decreases self.entries.len() - i,
        {
            let key: Value = self.entries[i].key;
            proof {
                assert(s.has(self.entries@[i as int].key));
            }
            if let Some(text) = key.as_text(heap, interns) {
                if same_text(text, t) {
                    return Some(i);
                }
            }
            i = i + 1;
        }
        None
    }

    /// Returns the value whose key is the given string.
    pub fn get_by_str<T: ResourceTracker>(&self, t: &str, heap: &Heap<T>, interns: &Interns) -> (r: Option<Value>)
        requires
            keys_legible(scene(heap@, *interns), self.entries@),
        ensures
            r == value_of(scene(heap@, *interns), self.entries@, t@),
    {
        match self.position_by_str(t, heap, interns) {
            Some(i) => Some(self.entries[i].value),
            None => None,
        }
    }
}

} // verus!
