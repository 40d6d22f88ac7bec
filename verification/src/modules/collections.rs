//! Implementation of the `collections` module.
//!
//! This module currently exposes only `namedtuple()`, but it is structured like
//! the other builtin modules so future collection helpers can be added without
//! revisiting import and dispatch plumbing.

use crate::args::{ArgValues, gives_back, owns};
use crate::equality::{Scene, scene};
use crate::exceptions::RunError;
use crate::heap::{Heap, HeapModel};
use crate::heap_model::{outside, sound};
use crate::intern::Interns;
use crate::modules::ModuleFunctions;
use crate::modules::attributes::{Attribute, build_module, distinct_names, makes_module};
use crate::resource::{ResourceError, ResourceTracker};
use crate::static_strings::StaticStrings;
use crate::types::namedtuple_args::{creates_type, plan_type, presentable, room_for_defaults};
use crate::types::namedtuple_factory::NamedTupleFactory;
use crate::types::py_trait::AttrCallResult;
use crate::value::{HeapId, Value, holds, holds1};
use vstd::prelude::*;

verus! {

/// Functions exposed by the `collections` module.
#[derive(Debug, Clone, Copy, PartialEq, Eq, Structural, Hash)]
pub enum CollectionsFunctions {
    /// `collections.namedtuple()` — create a callable factory for namedtuple instances.
    Namedtuple,
}

impl CollectionsFunctions {
    /// The function's name.
    pub open spec fn name(self) -> Seq<char> {
        "namedtuple"@
    }

    /// Returns the function's name.
    pub fn as_str(self) -> (r: &'static str)
        ensures
            r@ == self.name(),
    {
        "namedtuple"
    }
}

/// The attributes of the module.
pub open spec fn attributes() -> Seq<Attribute> {
    seq![
        Attribute {
            name: StaticStrings::Namedtuple,
            value: Value::ModuleFunction(ModuleFunctions::Collections(CollectionsFunctions::Namedtuple)),
        },
    ]
}

/// Creates the `collections` module and allocates it on the heap.
///
/// The module currently exports only `namedtuple`, mirroring the runtime surface
/// Monty supports today.
pub fn create_module<T: ResourceTracker>(heap: &mut Heap<T>, interns: &Interns) -> (r: Result<HeapId, ResourceError>)
    requires
        old(heap)@.wf(),
        sound(old(heap)@.entries),
        old(heap)@.entries.len() < usize::MAX,
    ensures
        final(heap)@.wf(),
        makes_module(old(heap)@, final(heap)@, StaticStrings::Collections, attributes(), r),
{
    let list: Vec<Attribute> = vec![
        Attribute {
            name: StaticStrings::Namedtuple,
            value: Value::ModuleFunction(ModuleFunctions::Collections(CollectionsFunctions::Namedtuple)),
        },
    ];
    proof {
        assert(list@ =~= attributes());
        assert(distinct_names(list@));
    }
    build_module(StaticStrings::Collections, &list, heap, interns)
}

/// May a call turn the heap into `after` and give `r`?
pub open spec fn calls_collections<T: ResourceTracker>(
    s: Scene<T>,
    before: HeapModel<T>,
    after: HeapModel<T>,
    args: ArgValues,
    r: Result<AttrCallResult, RunError>,
) -> bool {
    match r {
        Ok(AttrCallResult::Value(v)) => creates_type(s, before, after, args, Ok(v)),
        Ok(_) => false,
        Err(e) => creates_type(s, before, after, args, Err(e)),
    }
}

/// Dispatches a `collections` module function call.
pub fn call<T: ResourceTracker>(
    heap: &mut Heap<T>,
    functions: CollectionsFunctions,
    args: ArgValues,
    interns: &Interns,
) -> (r: Result<AttrCallResult, RunError>)
    requires
        old(heap)@.wf(),
        old(heap)@.entries.len() < usize::MAX,
        owns(old(heap)@.entries, args.values()),
        presentable(scene(old(heap)@, *interns), args.values(), args.positional().len()),
        room_for_defaults(
            old(heap)@,
            plan_type(scene(old(heap)@, *interns), args.positional(), args.keywords(), old(heap)@.recursion_depth),
        ),
    ensures
        calls_collections(scene(old(heap)@, *interns), old(heap)@, final(heap)@, args, r),
        final(heap)@.wf(),
        sound(final(heap)@.entries),
        r is Err ==> gives_back(old(heap)@.entries, final(heap)@.entries, args.values()),
        r matches Ok(AttrCallResult::Value(v)) ==> forall|x: HeapId|
            #[trigger] outside(final(heap)@.entries, x) == outside(old(heap)@.entries, x) - holds(args.values(), x)
                + holds1(v, x),
{
    match functions {
        CollectionsFunctions::Namedtuple => match NamedTupleFactory::create_from_namedtuple_call(heap, args, interns) {
            Ok(v) => Ok(AttrCallResult::Value(v)),
            Err(e) => Err(e),
        },
    }
}

} // verus!
