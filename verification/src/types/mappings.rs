//! Dictionaries, sets and dataclass instances.

use crate::value::{EitherStr, HeapId, Value, any_ref, is_ref, lemma_refs_push, refs};
use vstd::prelude::*;

verus! {

/// One key of a dictionary and its value.
#[derive(Debug, Clone, Copy)]
pub struct DictEntry {
    pub key: Value,
    pub value: Value,
}

/// A Python `dict`: its entries in insertion order.
#[derive(Debug)]
pub struct Dict {
    pub entries: Vec<DictEntry>,
}

/// The keys and values of some entries, each key before its value.
pub open spec fn flat(es: Seq<DictEntry>) -> Seq<Value>
    decreases es.len(),
{
    if es.len() == 0 {
        Seq::empty()
    } else {
        flat(es.drop_last()).push(es.last().key).push(es.last().value)
    }
}

pub proof fn lemma_flat_push(es: Seq<DictEntry>, e: DictEntry)
    ensures
        flat(es.push(e)) == flat(es).push(e.key).push(e.value),
{
    assert(es.push(e).drop_last() =~= es);
}

pub proof fn lemma_flat_index(es: Seq<DictEntry>, i: int)
    requires
        0 <= i < es.len(),
    ensures
        flat(es).len() == 2 * es.len(),
        flat(es)[2 * i] == es[i].key,
        flat(es)[2 * i + 1] == es[i].value,
    decreases es.len(),
{
    lemma_flat_len(es);
    lemma_flat_len(es.drop_last());
    if i < es.len() - 1 {
        lemma_flat_index(es.drop_last(), i);
    }
}

pub proof fn lemma_flat_len(es: Seq<DictEntry>)
    ensures
        flat(es).len() == 2 * es.len(),
    decreases es.len(),
{
    if es.len() > 0 {
        lemma_flat_len(es.drop_last());
    }
}

impl Dict {
    /// Makes an empty dictionary.
    pub fn new() -> (r: Dict)
        ensures
            r.entries@.len() == 0,
    {
        Dict { entries: Vec::new() }
    }

    /// The keys and values in order.
    pub open spec fn flat(self) -> Seq<Value> {
        flat(self.entries@)
    }

    /// Returns whether any key or value is a heap reference.
    pub fn has_refs(&self) -> (r: bool)
        ensures
            r == any_ref(self.flat()),
    {
        let mut i: usize = 0;
        while i < self.entries.len()
            invariant
                i <= self.entries@.len(),
                forall|j: int|
                    0 <= j < i ==> !is_ref((#[trigger] self.entries@[j]).key) && !is_ref(self.entries@[j].value),
            decreases self.entries.len() - i,
        {
            let e: DictEntry = self.entries[i];
            let hit: bool = match (e.key, e.value) {
                (Value::Ref(_), _) => true,
                (_, Value::Ref(_)) => true,
                _ => false,
            };
            if hit {
                proof {
                    lemma_flat_index(self.entries@, i as int);
                    if is_ref(e.key) {
                        assert(is_ref(self.flat()[2 * i]));
                    } else {
                        assert(is_ref(self.flat()[2 * i + 1]));
                    }
                }
                return true;
            }
            i = i + 1;
        }
        proof {
            assert forall|k: int| 0 <= k < self.flat().len() implies !is_ref(#[trigger] self.flat()[k]) by {
                lemma_flat_len(self.entries@);
                lemma_flat_index(self.entries@, k / 2);
                assert(!is_ref(self.entries@[k / 2].key));
            }
        }
        false
    }

    /// Appends the heap references among keys and values to a work list.
    pub fn push_refs(&self, stack: &mut Vec<HeapId>)
        ensures
            final(stack)@ == old(stack)@ + refs(self.flat()),
    {
        let mut i: usize = 0;
        proof {
            assert(self.entries@.take(0) =~= Seq::empty());
            assert(stack@ =~= old(stack)@ + refs(flat(self.entries@.take(0))));
        }
        while i < self.entries.len()
            invariant
                i <= self.entries@.len(),
                stack@ == old(stack)@ + refs(flat(self.entries@.take(i as int))),
            decreases self.entries.len() - i,
        {
            let e: DictEntry = self.entries[i];
            proof {
                let head = self.entries@.take(i as int);
                assert(self.entries@.take(i + 1) =~= head.push(e));
                lemma_flat_push(head, e);
                lemma_refs_push(flat(head), e.key);
                lemma_refs_push(flat(head).push(e.key), e.value);
            }
            if let Value::Ref(id) = e.key {
                stack.push(id);
            }
            if let Value::Ref(id) = e.value {
                stack.push(id);
            }
            proof {
                assert(stack@ =~= old(stack)@ + refs(flat(self.entries@.take(i + 1))));
            }
            i = i + 1;
        }
        proof {
            assert(self.entries@.take(self.entries@.len() as int) =~= self.entries@);
        }
    }
}

/// The elements of a set, in insertion order.
#[derive(Debug)]
pub struct SetStorage {
    pub items: Vec<Value>,
}

/// A Python `set`.
#[derive(Debug)]
pub struct PySet {
    pub storage: SetStorage,
}

/// A Python `frozenset`.
#[derive(Debug)]
pub struct FrozenSet {
    pub storage: SetStorage,
}

/// An instance of a dataclass of the host.
#[derive(Debug)]
pub struct Dataclass {
    /// The class's name.
    pub name: EitherStr,
    /// The host's number for the class.
    pub type_id: u64,
    /// The names of the fields, in order.
    pub field_names: Vec<String>,
    /// The attributes of the instance.
    pub attrs: Dict,
    /// Are instances immutable?
    pub frozen: bool,
}

} // verus!
