//! Binding the arguments of a call to a function's parameters.

use crate::args::{ArgValues, arg_values, owns, push_entries};
use crate::binding::{
    bind_call, bound_call, bound_values, keys_from, legible_keys, settle_call, settles_call, used_defaults,
};
use crate::equality::{Scene, scene};
use crate::exceptions::{ErrorView, RunError};
use crate::function::{Identifier, Signature};
use crate::heap::{Heap, HeapModel};
use crate::heap_model::{outside, sound};
use crate::heap_ops::all_live;
use crate::intern::{InternTables, Interns, StringId, id_text, valid_id};
use crate::resource::ResourceTracker;
use crate::text::texts;
use crate::types::mappings::{DictEntry, lemma_flat_len};
use crate::value::{HeapId, Value, holds, refs, tally};
use vstd::prelude::*;

verus! {

/// The texts of some ids.
pub open spec fn id_texts(tables: InternTables, ids: Seq<StringId>) -> Seq<Seq<char>> {
    ids.map_values(|id: StringId| id_text(tables.strings, id))
}

/// Do all ids stand for texts?
pub open spec fn valid_ids(tables: InternTables, ids: Seq<StringId>) -> bool {
    forall|i: int| 0 <= i < ids.len() ==> valid_id(tables.strings, #[trigger] ids[i])
}

/// Which argument each parameter of a function gets, or why the arguments do not fit.
pub open spec fn function_binding<T: ResourceTracker>(
    s: Scene<T>,
    name: StringId,
    params: Seq<StringId>,
    defaults: nat,
    pos: Seq<Value>,
    kws: Seq<DictEntry>,
) -> Result<Seq<Option<usize>>, ErrorView> {
    let name = id_text(s.tables.strings, name);
    if pos.len() > params.len() {
        Err(
            ErrorView::TooManyPositional {
                name,
                expected: params.len() as usize,
                given: pos.len() as usize,
                kwargs: kws.len() as usize,
            },
        )
    } else {
        bound_call(s, name, id_texts(s.tables, params), defaults, arg_values(pos, kws), pos.len())
    }
}

/// May binding the arguments turn the heap into `after` and give the values `r`?
///
/// Defaults that are used are counted and keywords are given up. On an error all
/// arguments are given up.
pub open spec fn binds<T: ResourceTracker>(
    s: Scene<T>,
    before: HeapModel<T>,
    after: HeapModel<T>,
    name: StringId,
    params: Seq<StringId>,
    defaults: Seq<Value>,
    args: ArgValues,
    r: Result<Seq<Value>, ErrorView>,
) -> bool {
    match function_binding(s, name, params, defaults.len(), args.positional(), args.keywords()) {
        Ok(slots) => {
            &&& r == Ok::<Seq<Value>, ErrorView>(bound_values(args.values(), defaults, slots))
            &&& settles_call(
                before,
                after,
                used_defaults(defaults, slots),
                keys_from(args.values(), args.positional().len()),
            )
        },
        Err(e) => r == Err::<Seq<Value>, ErrorView>(e) && before.gave_up(after, refs(args.values())),
    }
}

/// Returns the texts of some ids.
fn write_ids(ids: &Vec<StringId>, interns: &Interns) -> (r: Vec<String>)
    requires
        valid_ids(interns.tables(), ids@),
    ensures
        texts(r@) == id_texts(interns.tables(), ids@),
{
    let mut out: Vec<String> = Vec::with_capacity(ids.len());
    let mut i: usize = 0;
    while i < ids.len()
        invariant
            i <= ids@.len(),
            valid_ids(interns.tables(), ids@),
            out@.len() == i,
            forall|k: int| 0 <= k < i ==> (#[trigger] out@[k])@ == id_text(interns.tables().strings, ids@[k]),
        decreases ids.len() - i,
    {
        out.push(interns.get_str(ids[i]).to_owned());
        i = i + 1;
    }
    proof {
        assert(texts(out@) =~= id_texts(interns.tables(), ids@));
    }
    out
}

impl Signature {
    /// Binds the arguments of a call to the parameters.
    ///
    /// The values come in the order of the parameters.
    pub fn bind<T: ResourceTracker>(
        &self,
        args: ArgValues,
        defaults: &[Value],
        heap: &mut Heap<T>,
        interns: &Interns,
        name: Identifier,
    ) -> (r: Result<Vec<Value>, RunError>)
        requires
            old(heap)@.wf(),
            old(heap)@.room(self.params@.len()),
            owns(old(heap)@.entries, args.values()),
            all_live(old(heap)@.entries, refs(defaults@)),
            valid_id(interns.tables().strings, name.name_id),
            valid_ids(interns.tables(), self.params@),
            legible_keys(scene(old(heap)@, *interns), args.values(), args.positional().len()),
        ensures
            final(heap)@.wf(),
            final(heap)@.entries.len() == old(heap)@.entries.len(),
            binds(
                scene(old(heap)@, *interns),
                old(heap)@,
                final(heap)@,
                name.name_id,
                self.params@,
                defaults@,
                args,
                match r {
                    Ok(values) => Ok(values@),
                    Err(e) => Err(e@),
                },
            ),
            match r {
                Ok(values) => {
                    &&& values@.len() == self.params@.len()
                    &&& owns(final(heap)@.entries, values@)
                    &&& forall|x: HeapId|
                        #[trigger] outside(final(heap)@.entries, x) == outside(old(heap)@.entries, x) - holds(
                            args.values(),
                            x,
                        ) + holds(values@, x)
                },
                Err(_) => sound(final(heap)@.entries) && forall|x: HeapId|
                    #[trigger] outside(final(heap)@.entries, x) == outside(old(heap)@.entries, x) - holds(
                        args.values(),
                        x,
                    ),
            },
    {
        let ghost s = scene(heap@, *interns);
        let function_name: &str = interns.get_str(name.name_id);
        let names: Vec<String> = write_ids(&self.params, interns);
        let (pos, kws): (Vec<Value>, Vec<DictEntry>) = args.into_parts();
        let positional_count: usize = pos.len();
        let kwargs_count: usize = kws.len();
        let mut all: Vec<Value> = pos;
        push_entries(&mut all, &kws);
        proof {
            lemma_flat_len(kws@);
            assert(all@ == args.values());
            assert(texts(names@).len() == self.params@.len());
        }
        if positional_count > self.params.len() {
            heap.discard_all(all.as_slice());
            proof {
                lemma_given(old(heap)@, heap@, all@);
            }
            return Err(
                RunError::TooManyPositional {
                    name: function_name.to_owned(),
                    expected: self.params.len(),
                    given: positional_count,
                    kwargs: kwargs_count,
                },
            );
        }
        match bind_call(function_name, &names, defaults, &all, positional_count, heap, interns) {
            Ok(b) => {
                settle_call(&b, Ghost(all@), defaults, heap);
                Ok(b.values)
            },
            Err(e) => {
                heap.discard_all(all.as_slice());
                proof {
                    lemma_given(old(heap)@, heap@, all@);
                }
                Err(e)
            },
        }
    }
}

proof fn lemma_given<T: ResourceTracker>(a: HeapModel<T>, b: HeapModel<T>, all: Seq<Value>)
    requires
        a.gave_up(b, refs(all)),
    ensures
        forall|x: HeapId| #[trigger] outside(b.entries, x) == outside(a.entries, x) - holds(all, x),
{
    assert forall|x: HeapId| #[trigger] outside(b.entries, x) == outside(a.entries, x) - holds(all, x) by {
        assert(outside(b.entries, x) == outside(a.entries, x) - tally(refs(all), x));
    }
}

} // verus!
