//! Heap-backed callable factory for `collections.namedtuple()`.
//!
//! CPython's `collections.namedtuple()` returns a new class. Monty does not yet
//! implement Python class definitions, so this type provides the smallest clean
//! runtime abstraction that still behaves like a constructor: it captures the
//! typename, validated field names, defaults, and optional module metadata, and
//! when called it produces the existing [`NamedTuple`](crate::types::sequences::NamedTuple)
//! runtime value.

use crate::args::{ArgValues, arg_values, gives_back, lemma_given_back, owns, push_entries, spares_others};
use crate::binding::{
    BoundCall, bind_call, bound_call, bound_values, find_param, gives_by_name, keys_from, legible_keys, param_index, settle_call,
    settles_call, used_defaults, values_by_position_or_name,
};
use crate::equality::{Scene, scene};
use crate::exceptions::{ErrorView, RunError};
use crate::function::copy_vec;
use crate::hash::{has_name, name_text};
use crate::heap::{Heap, HeapModel, allocation_balances};
use crate::heap_arith::{allocate_holding, lemma_made, makes, makes_holding};
use crate::heap_data::HeapData;
use crate::heap_model::{data_at, kept, outside, sound};
use crate::heap_ops::all_live;
use crate::intern::{InternTables, Interns};
use crate::resource::{ResourceError, ResourceTracker};
use crate::text::{join2, texts};
use crate::types::mappings::{DictEntry, lemma_flat_len};
use crate::types::sequences::NamedTuple;
use crate::value::{
    EitherStr, HeapId, Value, any_ref, contains_ref, duplicate_names, holds, holds1, refs, same_name, same_names, tally,
};
use vstd::prelude::*;

verus! {

/// Callable factory returned by `collections.namedtuple()`.
///
/// The factory is immutable after creation and can be serialized inside REPL
/// snapshots. It keeps only the metadata needed for constructor-like calls and
/// class-style repr output.
#[derive(Debug)]
pub struct NamedTupleFactory {
    /// Bare typename used by instance repr, e.g. `Point`.
    pub typename: EitherStr,
    /// Validated field names in constructor order.
    pub field_names: Vec<EitherStr>,
    /// Right-aligned trailing defaults for omitted constructor arguments.
    pub defaults: Vec<Value>,
    /// Optional module metadata used only for the class-like repr.
    pub module_name: Option<EitherStr>,
    /// Cached reference presence for GC/refcount optimizations.
    pub contains_refs: bool,
}

/// The texts of some names.
pub open spec fn names_text(tables: InternTables, names: Seq<EitherStr>) -> Seq<Seq<char>> {
    names.map_values(|n: EitherStr| name_text(tables, n))
}

/// Do all names lead to a text?
pub open spec fn has_names(tables: InternTables, names: Seq<EitherStr>) -> bool {
    forall|i: int| 0 <= i < names.len() ==> has_name(tables, #[trigger] names[i])
}

/// Returns the texts of some names.
pub fn write_names(names: &Vec<EitherStr>, interns: &Interns) -> (r: Vec<String>)
    requires
        has_names(interns.tables(), names@),
    ensures
        texts(r@) == names_text(interns.tables(), names@),
{
    let mut out: Vec<String> = Vec::with_capacity(names.len());
    let mut i: usize = 0;
    while i < names.len()
        invariant
            i <= names@.len(),
            has_names(interns.tables(), names@),
            out@.len() == i,
            forall|k: int| 0 <= k < i ==> (#[trigger] out@[k])@ == name_text(interns.tables(), names@[k]),
        decreases names.len() - i,
    {
        out.push(names[i].as_str(interns).to_owned());
        i = i + 1;
    }
    proof {
        assert(texts(out@) =~= names_text(interns.tables(), names@));
    }
    out
}

impl NamedTupleFactory {
    /// Is the cached flag right?
    pub open spec fn wf(self) -> bool {
        self.contains_refs == any_ref(self.defaults@)
    }

    /// Creates a new namedtuple factory from validated components.
    #[must_use]
    pub fn new(
        typename: EitherStr,
        field_names: Vec<EitherStr>,
        defaults: Vec<Value>,
        module_name: Option<EitherStr>,
    ) -> (r: NamedTupleFactory)
        ensures
            r.wf(),
            r.typename == typename,
            r.field_names == field_names,
            r.defaults == defaults,
            r.module_name == module_name,
    {
        let contains_refs: bool = contains_ref(defaults.as_slice());
        NamedTupleFactory { typename, field_names, defaults, module_name, contains_refs }
    }

    /// Returns whether the factory currently holds any heap references in defaults.
    #[must_use]
    pub fn contains_refs(&self) -> (r: bool)
        ensures
            r == self.contains_refs,
    {
        self.contains_refs
    }

    /// Returns the default values stored on the factory.
    #[must_use]
    pub fn defaults(&self) -> (r: &[Value])
        ensures
            r@ == self.defaults@,
    {
        self.defaults.as_slice()
    }

    /// The constructor name used in error messages.
    pub open spec fn spec_constructor_name(self, tables: InternTables) -> Seq<char> {
        name_text(tables, self.typename) + ".__new__"@
    }

    /// Returns the constructor name used in error messages.
    fn constructor_name(&self, interns: &Interns) -> (r: String)
        requires
            has_name(interns.tables(), self.typename),
        ensures
            r@ == self.spec_constructor_name(interns.tables()),
    {
        join2(self.typename.as_str(interns), ".__new__")
    }

    /// Returns the field index for a keyword binding.
    pub fn field_index(&self, field_name: &str, interns: &Interns) -> (r: Option<usize>)
        requires
            has_names(interns.tables(), self.field_names@),
        ensures
            match param_index(names_text(interns.tables(), self.field_names@), field_name@, 0) {
                Some(i) => r matches Some(k) && k == i && k < self.field_names@.len(),
                None => r is None,
            },
    {
        let names: Vec<String> = write_names(&self.field_names, interns);
        proof {
            assert(texts(names@).len() == self.field_names@.len());
        }
        find_param(&names, field_name)
    }

    /// Which argument each field gets, or why the call fails.
    pub open spec fn binding<T: ResourceTracker>(self, s: Scene<T>, pos: Seq<Value>, kws: Seq<DictEntry>) -> Result<
        Seq<Option<usize>>,
        ErrorView,
    > {
        let name = self.spec_constructor_name(s.tables);
        let params = names_text(s.tables, self.field_names@);
        if pos.len() > params.len() {
            Err(
                ErrorView::TooManyPositional {
                    name,
                    expected: (params.len() + 1) as usize,
                    given: (pos.len() + 1) as usize,
                    kwargs: kws.len() as usize,
                },
            )
        } else {
            bound_call(s, name, params, self.defaults@.len(), arg_values(pos, kws), pos.len())
        }
    }

    /// Is `nt` an instance of the type with the given values?
    pub open spec fn instance(self, nt: NamedTuple, values: Seq<Value>) -> bool {
        &&& same_name(nt.name, self.typename)
        &&& same_names(nt.field_names@, self.field_names@)
        &&& nt.items@ == values
    }

    /// May calling the constructor turn the heap into `after` and give `r`?
    ///
    /// Defaults that are used are counted, keywords are given up, and the instance is
    /// allocated with the values. On an error all are given up.
    pub open spec fn constructs<T: ResourceTracker>(
        self,
        s: Scene<T>,
        before: HeapModel<T>,
        after: HeapModel<T>,
        args: ArgValues,
        r: Result<Value, RunError>,
    ) -> bool {
        match self.binding(s, args.positional(), args.keywords()) {
            Err(e) => r matches Err(err) && err@ == e && before.gave_up(after, refs(args.values())),
            Ok(slots) => self.fills(before, after, args.values(), args.positional().len(), slots, r),
        }
    }

    /// May making an instance of bound arguments turn the heap into `after` and give `r`?
    pub open spec fn fills<T: ResourceTracker>(
        self,
        before: HeapModel<T>,
        after: HeapModel<T>,
        all: Seq<Value>,
        n: nat,
        slots: Seq<Option<usize>>,
        r: Result<Value, RunError>,
    ) -> bool {
        exists|mid: HeapModel<T>, nt: NamedTuple|
            {
                &&& #[trigger] settles_call(before, mid, used_defaults(self.defaults@, slots), keys_from(all, n))
                &&& #[trigger] self.instance(nt, bound_values(all, self.defaults@, slots))
                &&& match r {
                    Ok(v) => makes_holding(mid, after, HeapData::NamedTuple(nt), nt.items@, Ok(v)),
                    Err(RunError::Resource(e)) => makes_holding(mid, after, HeapData::NamedTuple(nt), nt.items@, Err(e)),
                    Err(_) => false,
                }
            }
    }

    /// Calls the factory like a class constructor, returning a `NamedTuple`.
    ///
    /// Constructor binding matches Python's positional/keyword rules closely
    /// enough for ordinary namedtuple usage, including defaults and exact error
    /// messages for the covered cases.
    #[verifier::rlimit(40)]
    pub fn call<T: ResourceTracker>(&self, args: ArgValues, heap: &mut Heap<T>, interns: &Interns) -> (r: Result<
        Value,
        RunError,
    >)
        requires
            old(heap)@.wf(),
            old(heap)@.entries.len() < usize::MAX,
            old(heap)@.room(self.field_names@.len()),
            owns(old(heap)@.entries, args.values()),
            all_live(old(heap)@.entries, refs(self.defaults@)),
            has_name(interns.tables(), self.typename),
            has_names(interns.tables(), self.field_names@),
            self.field_names@.len() < usize::MAX,
            args.positional().len() < usize::MAX,
            legible_keys(scene(old(heap)@, *interns), args.values(), args.positional().len()),
        ensures
            self.constructs(scene(old(heap)@, *interns), old(heap)@, final(heap)@, args, r),
            final(heap)@.wf(),
            sound(final(heap)@.entries),
            spares_others(old(heap)@.entries, final(heap)@.entries, args.values()),
            r is Err ==> gives_back(old(heap)@.entries, final(heap)@.entries, args.values()),
            r matches Ok(v) ==> forall|x: HeapId|
                #[trigger] outside(final(heap)@.entries, x) == outside(old(heap)@.entries, x) - holds(
                    args.values(),
                    x,
                ) + holds1(v, x),
    {
        let ghost s = scene(heap@, *interns);
        let ghost params = names_text(s.tables, self.field_names@);
        let constructor_name: String = self.constructor_name(interns);
        let names: Vec<String> = write_names(&self.field_names, interns);
        let field_count: usize = self.field_names.len();
        let (pos, kws): (Vec<Value>, Vec<DictEntry>) = args.into_parts();
        let positional_count: usize = pos.len();
        let kwargs_count: usize = kws.len();
        let mut all: Vec<Value> = pos;
        push_entries(&mut all, &kws);
        proof {
            lemma_flat_len(kws@);
            assert(all@ == args.values());
            assert(texts(names@).len() == field_count);
        }
        if positional_count > field_count {
            heap.discard_all(all.as_slice());
            proof {
                lemma_given_back(old(heap)@, heap@, all@);
            }
            return Err(
                RunError::TooManyPositional {
                    name: constructor_name,
                    expected: field_count + 1,
                    given: positional_count + 1,
                    kwargs: kwargs_count,
                },
            );
        }
        let b: BoundCall = match bind_call(
            constructor_name.as_str(),
            &names,
            self.defaults.as_slice(),
            &all,
            positional_count,
            heap,
            interns,
        ) {
            Ok(b) => b,
            Err(e) => {
                heap.discard_all(all.as_slice());
                proof {
                    lemma_given_back(old(heap)@, heap@, all@);
                }
                return Err(e);
            },
        };
        let ghost slots = self.binding(s, pos@, kws@)->Ok_0;
        settle_call(&b, Ghost(all@), self.defaults.as_slice(), heap);
        let ghost values = b.values@;
        let ghost mid = heap@;
        let held: Vec<Value> = copy_vec(b.values.as_slice());
        let namedtuple: NamedTuple = NamedTuple::new(
            self.typename.duplicate(),
            duplicate_names(&self.field_names),
            b.values,
        );
        let ghost nt = namedtuple;
        proof {
            assert forall|x: HeapId| #[trigger] outside(mid.entries, x) >= tally(refs(held@), x) + kept(x) by {
                assert(outside(mid.entries, x) >= tally(refs(values), x) + kept(x));
            }
        }
        let outcome: Result<Value, ResourceError> = allocate_holding(
            HeapData::NamedTuple(namedtuple),
            held.as_slice(),
            heap,
        );
        let r: Result<Value, RunError> = match outcome {
            Ok(v) => Ok(v),
            Err(e) => Err(RunError::Resource(e)),
        };
        proof {
            assert(settles_call(
                old(heap)@,
                mid,
                used_defaults(self.defaults@, slots),
                keys_from(all@, positional_count as nat),
            ));
            assert(self.instance(nt, bound_values(all@, self.defaults@, slots)));
            assert(self.fills(old(heap)@, heap@, all@, positional_count as nat, slots, r));
            match outcome {
                Ok(v) => {
                    allocation_balances(mid, HeapData::NamedTuple(nt), heap@.tracker);
                    assert forall|x: HeapId| #[trigger]
                        outside(heap@.entries, x) == outside(old(heap)@.entries, x) - holds(all@, x) + holds1(v, x) by {
                        assert(outside(mid.entries, x) == outside(old(heap)@.entries, x) - holds(all@, x) + holds(
                            values,
                            x,
                        ));
                    }
                    assert forall|x: HeapId| #[trigger] outside(heap@.entries, x) >= kept(x) by {
                        assert(outside(mid.entries, x) >= tally(refs(values), x) + kept(x));
                    }
                },
                Err(e) => {
                    let refused = choose|refused: HeapModel<T>| #[trigger]
                        makes(mid, refused, HeapData::NamedTuple(nt), Err(e)) && refused.gave_up(heap@, refs(held@));
                    assert forall|x: HeapId| #[trigger]
                        outside(heap@.entries, x) == outside(old(heap)@.entries, x) - holds(all@, x) by {
                        assert(outside(heap@.entries, x) == outside(refused.entries, x) - tally(refs(held@), x));
                        assert(outside(mid.entries, x) == outside(old(heap)@.entries, x) - holds(all@, x) + holds(
                            values,
                            x,
                        ));
                    }
                },
            }
        }
        r
    }

    /// Returns a copy of the factory; references are not counted.
    pub fn duplicate(&self) -> (r: NamedTupleFactory)
        ensures
            same_factory(r, *self),
    {
        NamedTupleFactory {
            typename: self.typename.duplicate(),
            field_names: duplicate_names(&self.field_names),
            defaults: copy_vec(self.defaults.as_slice()),
            module_name: match &self.module_name {
                Some(m) => Some(m.duplicate()),
                None => None,
            },
            contains_refs: self.contains_refs,
        }
    }
}

/// Do two factories have the same name, fields, defaults and module?
pub open spec fn same_factory(a: NamedTupleFactory, b: NamedTupleFactory) -> bool {
    &&& same_name(a.typename, b.typename)
    &&& same_names(a.field_names@, b.field_names@)
    &&& a.defaults@ == b.defaults@
    &&& match (a.module_name, b.module_name) {
        (Some(m), Some(n)) => same_name(m, n),
        (None, None) => true,
        _ => false,
    }
    &&& a.contains_refs == b.contains_refs
}

/// The values of the fields may be given by position or by name, in any order: the
/// constructor then makes the same named tuple however many of them come by position.
///
/// Only the tracker can refuse it.
pub proof fn fields_by_position_or_name<T: ResourceTracker>(
    f: NamedTupleFactory,
    s: Scene<T>,
    before: HeapModel<T>,
    after: HeapModel<T>,
    args: ArgValues,
    values: Seq<Value>,
    k: nat,
    order: Seq<int>,
    r: Result<Value, RunError>,
)
    requires
        before.entries.len() < usize::MAX,
        names_text(s.tables, f.field_names@).no_duplicates(),
        values.len() == f.field_names@.len(),
        k <= values.len(),
        args.positional() == values.take(k as int),
        gives_by_name(s, names_text(s.tables, f.field_names@), values, k, args.keywords(), order),
        args.values().len() <= usize::MAX,
        f.constructs(s, before, after, args, r),
    ensures
        match r {
            Ok(v) => {
                &&& v matches Value::Ref(id)
                &&& data_at(after.entries, id) matches HeapData::NamedTuple(nt)
                &&& f.instance(nt, values)
            },
            Err(e) => e is Resource,
        },
{
    let all = args.values();
    let n = args.positional().len();
    let params = names_text(s.tables, f.field_names@);
    lemma_flat_len(args.keywords());
    values_by_position_or_name(
        s,
        f.spec_constructor_name(s.tables),
        params,
        f.defaults@,
        values,
        k,
        args.keywords(),
        order,
    );
    let slots = f.binding(s, args.positional(), args.keywords())->Ok_0;
    let (mid, nt) = choose|mid: HeapModel<T>, nt: NamedTuple|
        {
            &&& #[trigger] settles_call(before, mid, used_defaults(f.defaults@, slots), keys_from(all, n))
            &&& #[trigger] f.instance(nt, bound_values(all, f.defaults@, slots))
            &&& match r {
                Ok(v) => makes_holding(mid, after, HeapData::NamedTuple(nt), nt.items@, Ok(v)),
                Err(RunError::Resource(e)) => makes_holding(mid, after, HeapData::NamedTuple(nt), nt.items@, Err(e)),
                Err(_) => false,
            }
        };
    if let Ok(v) = r {
        lemma_made(mid, after, HeapData::NamedTuple(nt), v);
    }
}

/// A copy of a factory behaves as the factory.
pub proof fn copies_construct_alike<T: ResourceTracker>(
    a: NamedTupleFactory,
    b: NamedTupleFactory,
    s: Scene<T>,
    before: HeapModel<T>,
    after: HeapModel<T>,
    args: ArgValues,
    r: Result<Value, RunError>,
)
    requires
        same_factory(a, b),
        a.constructs(s, before, after, args, r),
    ensures
        b.constructs(s, before, after, args, r),
{
    assert(names_text(s.tables, a.field_names@) =~= names_text(s.tables, b.field_names@)) by {
        assert forall|i: int| 0 <= i < a.field_names@.len() implies name_text(s.tables, #[trigger] a.field_names@[i])
            == name_text(s.tables, b.field_names@[i]) by {
            assert(same_name(a.field_names@[i], b.field_names@[i]));
        }
    }
    assert(a.spec_constructor_name(s.tables) == b.spec_constructor_name(s.tables));
    if let Ok(slots) = a.binding(s, args.positional(), args.keywords()) {
        let all = args.values();
        let n = args.positional().len();
        assert(a.fills(before, after, all, n, slots, r));
        let (mid, nt) = choose|mid: HeapModel<T>, nt: NamedTuple|
            {
                &&& #[trigger] settles_call(before, mid, used_defaults(a.defaults@, slots), keys_from(all, n))
                &&& #[trigger] a.instance(nt, bound_values(all, a.defaults@, slots))
                &&& match r {
                    Ok(v) => makes_holding(mid, after, HeapData::NamedTuple(nt), nt.items@, Ok(v)),
                    Err(RunError::Resource(e)) => makes_holding(mid, after, HeapData::NamedTuple(nt), nt.items@, Err(e)),
                    Err(_) => false,
                }
            };
        assert(b.instance(nt, bound_values(all, b.defaults@, slots))) by {
            assert forall|i: int| 0 <= i < nt.field_names@.len() implies same_name(
                #[trigger] nt.field_names@[i],
                b.field_names@[i],
            ) by {
                assert(same_name(nt.field_names@[i], a.field_names@[i]));
                assert(same_name(a.field_names@[i], b.field_names@[i]));
            }
        }
        assert(b.fills(before, after, all, n, slots, r));
    }
}

} // verus!
