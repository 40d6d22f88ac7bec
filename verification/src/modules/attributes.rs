//! Building modules from their attributes.

use crate::args::owns;
use crate::equality::{Scene, scene};
use crate::heap::{Heap, HeapModel};
use crate::heap_data::HeapData;
use crate::heap_model::{kept, outside, sound};
use crate::intern::{Interns, static_id, static_ids_name_their_text};
use crate::resource::{ResourceError, ResourceTracker};
use crate::static_strings::{StaticStrings, static_names_are_distinct};
use crate::types::lookup::{keys_legible, lemma_keys_legible, lemma_text_missing};
use crate::types::mappings::{DictEntry, flat, lemma_flat_index, lemma_flat_len};
use crate::types::module::Module;
use crate::value::{HeapId, Value, is_ref, lemma_no_refs, refs, tally};
use vstd::prelude::*;

verus! {

/// A name and the value that a module has for it.
pub struct Attribute {
    pub name: StaticStrings,
    pub value: Value,
}

/// The dictionary entries of some attributes.
pub open spec fn attribute_entries(list: Seq<Attribute>) -> Seq<DictEntry> {
    list.map_values(|a: Attribute| DictEntry { key: Value::InternString(static_id(a.name)), value: a.value })
}

/// Has no name two attributes?
pub open spec fn distinct_names(list: Seq<Attribute>) -> bool {
    forall|i: int, j: int| 0 <= i < j < list.len() ==> (#[trigger] list[i]).name != (#[trigger] list[j]).name
}

/// May making a module of these attributes turn the heap into `after` and give `r`?
pub open spec fn makes_module<T: ResourceTracker>(
    before: HeapModel<T>,
    after: HeapModel<T>,
    name: StaticStrings,
    list: Seq<Attribute>,
    r: Result<HeapId, ResourceError>,
) -> bool {
    exists|m: Module|
        {
            &&& m.name == static_id(name)
            &&& m.attrs.entries@ == attribute_entries(list)
            &&& #[trigger] before.allocates(after, HeapData::Module(m), r)
        }
}

/// Entries with static names and values that are no references can be read.
proof fn lemma_static_entries<T: ResourceTracker>(m: HeapModel<T>, s: Scene<T>, list: Seq<Attribute>)
    requires
        sound(m.entries),
        forall|i: int| 0 <= i < list.len() ==> !is_ref((#[trigger] list[i]).value) && s.has(list[i].value),
    ensures
        owns(m.entries, flat(attribute_entries(list))),
        keys_legible(s, attribute_entries(list)),
{
    let es = attribute_entries(list);
    lemma_flat_len(es);
    assert forall|k: int| 0 <= k < flat(es).len() implies !is_ref(#[trigger] flat(es)[k]) && s.has(flat(es)[k]) by {
        lemma_flat_index(es, k / 2);
        assert(es[k / 2].value == list[k / 2].value);
        static_ids_name_their_text(s.tables.strings, list[k / 2].name);
        if k % 2 == 0 {
            assert(flat(es)[k] == es[k / 2].key);
        } else {
            assert(flat(es)[k] == es[k / 2].value);
        }
    }
    lemma_keys_legible(s, es);
    lemma_no_refs(flat(es));
    assert forall|x: HeapId| #[trigger] outside(m.entries, x) >= tally(refs(flat(es)), x) + kept(x) by {
        assert(outside(m.entries, x) >= kept(x));
    }
}

/// Makes a module of the given attributes and allocates it on the heap.
pub fn build_module<T: ResourceTracker>(
    name: StaticStrings,
    list: &Vec<Attribute>,
    heap: &mut Heap<T>,
    interns: &Interns,
) -> (r: Result<HeapId, ResourceError>)
    requires
        old(heap)@.wf(),
        sound(old(heap)@.entries),
        old(heap)@.entries.len() < usize::MAX,
        distinct_names(list@),
        forall|i: int|
            0 <= i < list@.len() ==> !is_ref((#[trigger] list@[i]).value) && scene(old(heap)@, *interns).has(
                list@[i].value,
            ),
    ensures
        final(heap)@.wf(),
        makes_module(old(heap)@, final(heap)@, name, list@, r),
{
    let ghost s = scene(heap@, *interns);
    let mut module: Module = Module::new(name);
    let mut i: usize = 0;
    proof {
        assert(module.attrs.entries@ =~= attribute_entries(list@.take(0)));
    }
    while i < list.len()
        invariant
            i <= list@.len(),
            s == scene(old(heap)@, *interns),
            heap@ == old(heap)@,
            heap@.wf(),
            sound(heap@.entries),
            distinct_names(list@),
            forall|k: int| 0 <= k < list@.len() ==> !is_ref((#[trigger] list@[k]).value) && s.has(list@[k].value),
            module.name == static_id(name),
            module.attrs.entries@ == attribute_entries(list@.take(i as int)),
        decreases list.len() - i,
    {
        let attr_name: StaticStrings = list[i].name;
        let value: Value = list[i].value;
        let ghost done = list@.take(i as int);
        proof {
            lemma_static_entries(heap@, s, done);
            static_ids_name_their_text(s.tables.strings, attr_name);
            let es = attribute_entries(done);
            assert forall|k: int| 0 <= k < es.len() implies s.text(#[trigger] es[k].key) != Some(attr_name.name()) by {
                static_ids_name_their_text(s.tables.strings, done[k].name);
                assert(done[k] == list@[k]);
                if done[k].name.name() == attr_name.name() {
                    static_names_are_distinct(done[k].name, attr_name);
                }
            }
            lemma_text_missing(s, es, attr_name.name(), 0);
        }
        module.set_attr(attr_name, value, heap, interns);
        proof {
            assert(list@.take(i + 1) =~= done.push(list@[i as int]));
            assert(module.attrs.entries@ =~= attribute_entries(list@.take(i + 1)));
        }
        i = i + 1;
    }
    proof {
        assert(list@.take(list@.len() as int) =~= list@);
    }
    heap.allocate(HeapData::Module(module))
}

} // verus!
