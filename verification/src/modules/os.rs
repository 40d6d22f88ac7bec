//! Implementation of the `os` module.
//!
//! Provides a minimal implementation of Python's `os` module with:
//! - `getenv(key, default=None)`: Get a single environment variable
//! - `environ`: Property that returns the entire environment as a dict
//!
//! Other os functions are not implemented. OS operations require host involvement
//! via the `OsFunction` callback mechanism - Monty yields control to the host
//! which executes the operation and returns the result.

use crate::args::{ArgValues, arity_error, gives_back, owns};
use crate::equality::{Scene, scene};
use crate::exceptions::{RunError, type_error_view};
use crate::heap::{Heap, HeapModel};
use crate::heap_model::{outside, sound};
use crate::intern::Interns;
use crate::modules::ModuleFunctions;
use crate::modules::attributes::{Attribute, build_module, distinct_names, makes_module};
use crate::os::OsFunction;
use crate::resource::{ResourceError, ResourceTracker};
use crate::static_strings::StaticStrings;
use crate::text::join2;
use crate::types::lookup::legible;
use crate::types::py_trait::AttrCallResult;
use crate::value::{HeapId, Property, Value, holds, lemma_holds_one, lemma_holds_two, refs, tally};
use vstd::prelude::*;

verus! {

/// OS module functions.
#[derive(Debug, Clone, Copy, PartialEq, Eq, Structural, Hash)]
pub enum OsFunctions {
    /// `os.getenv(key, default=None)`
    Getenv,
}

impl OsFunctions {
    /// The function's name.
    pub open spec fn name(self) -> Seq<char> {
        "getenv"@
    }

    /// Returns the function's name.
    pub fn as_str(self) -> (r: &'static str)
        ensures
            r@ == self.name(),
    {
        "getenv"
    }
}

/// The attributes of the module.
pub open spec fn attributes() -> Seq<Attribute> {
    seq![
        Attribute {
            name: StaticStrings::Getenv,
            value: Value::ModuleFunction(ModuleFunctions::Os(OsFunctions::Getenv)),
        },
        Attribute { name: StaticStrings::Environ, value: Value::Property(Property::Os(OsFunction::GetEnviron)) },
    ]
}

/// Creates the `os` module and allocates it on the heap.
///
/// The module provides:
/// - `getenv(key, default=None)`: Get a single environment variable
/// - `environ`: Property that returns the entire environment as a dict
///
/// Both operations yield to the host via `OsFunction` callbacks.
///
/// # Returns
/// A HeapId pointing to the newly allocated module.
pub fn create_module<T: ResourceTracker>(heap: &mut Heap<T>, interns: &Interns) -> (r: Result<HeapId, ResourceError>)
    requires
        old(heap)@.wf(),
        sound(old(heap)@.entries),
        old(heap)@.entries.len() < usize::MAX,
    ensures
        final(heap)@.wf(),
        makes_module(old(heap)@, final(heap)@, StaticStrings::Os, attributes(), r),
{
    let list: Vec<Attribute> = vec![
        // os.getenv - function to get a single environment variable
        Attribute {
            name: StaticStrings::Getenv,
            value: Value::ModuleFunction(ModuleFunctions::Os(OsFunctions::Getenv)),
        },
        // os.environ - property that returns the entire environment as a dict
        Attribute { name: StaticStrings::Environ, value: Value::Property(Property::Os(OsFunction::GetEnviron)) },
    ];
    proof {
        assert(list@ =~= attributes());
        assert(distinct_names(list@));
    }
    build_module(StaticStrings::Os, &list, heap, interns)
}

/// May `os.getenv` turn the heap into `after` and give `r`?
///
/// With a key that is a string the host is asked, and gets all arguments. On an
/// error all arguments are given up.
pub open spec fn asks_env<T: ResourceTracker>(
    s: Scene<T>,
    before: HeapModel<T>,
    after: HeapModel<T>,
    args: ArgValues,
    r: Result<AttrCallResult, RunError>,
) -> bool {
    let pos = args.positional();
    let keywords = args.keywords().len();
    if keywords > 0 || pos.len() == 0 || pos.len() > 2 {
        &&& r matches Err(e) && e@ == arity_error("os.getenv"@, 1, 2, pos.len(), keywords)
        &&& before.gave_up(after, refs(args.values()))
    } else if s.text(pos[0]) is Some {
        let default = if pos.len() > 1 { pos[1] } else { Value::PyNone };
        &&& r == Ok::<AttrCallResult, RunError>(
            AttrCallResult::OsCall(OsFunction::Getenv, ArgValues::Two(pos[0], default)),
        )
        &&& after == before
    } else {
        &&& r matches Err(e) && e@ == type_error_view("str expected, not "@ + s.type_of(pos[0]).name())
        &&& before.gave_up(after, refs(args.values()))
    }
}

/// Can the key be read, where there is one? The default is not looked at.
pub open spec fn key_legible<T: ResourceTracker>(s: Scene<T>, args: ArgValues) -> bool {
    args.keywords().len() == 0 && 1 <= args.positional().len() <= 2 ==> legible(s, seq![args.positional()[0]])
}

/// Dispatches a call to an os module function.
///
/// Returns `AttrCallResult::OsCall` for functions that need host involvement,
/// or `AttrCallResult::Value` for functions that can be computed immediately.
pub fn call<T: ResourceTracker>(heap: &mut Heap<T>, functions: OsFunctions, args: ArgValues, interns: &Interns) -> (r:
    Result<AttrCallResult, RunError>)
    requires
        old(heap)@.wf(),
        owns(old(heap)@.entries, args.values()),
        key_legible(scene(old(heap)@, *interns), args),
    ensures
        asks_env(scene(old(heap)@, *interns), old(heap)@, final(heap)@, args, r),
{
    match functions {
        OsFunctions::Getenv => getenv(heap, args, interns),
    }
}

/// Implementation of `os.getenv(key, default=None)`.
///
/// Returns the value of the environment variable `key` if it exists, or `default` if it doesn't.
/// This function yields to the host to perform the actual environment lookup.
///
/// # Errors
/// Returns `TypeError` if:
/// - No arguments are provided
/// - More than 2 arguments are provided
/// - `key` is not a string
fn getenv<T: ResourceTracker>(heap: &mut Heap<T>, args: ArgValues, interns: &Interns) -> (r: Result<
    AttrCallResult,
    RunError,
>)
    requires
        old(heap)@.wf(),
        owns(old(heap)@.entries, args.values()),
        key_legible(scene(old(heap)@, *interns), args),
    ensures
        asks_env(scene(old(heap)@, *interns), old(heap)@, final(heap)@, args, r),
{
    let ghost s = scene(heap@, *interns);
    let ghost all = args.values();
    proof {
        if args.keywords().len() == 0 {
            assert(all =~= args.positional());
        }
    }
    // getenv(key, default=None) - accepts 1 or 2 positional arguments
    let (key, default): (Value, Option<Value>) = match args.get_one_two_args("os.getenv", heap) {
        Ok(pair) => pair,
        Err(e) => {
            return Err(e);
        },
    };
    proof {
        assert(all[0] == key);
        assert(s.has(seq![args.positional()[0]][0]));
    }
    // Validate key is a string
    if key.is_str(heap, interns) {
        // Build args to pass to host: (key, default)
        // The default is None if not provided
        let final_default: Value = match default {
            Some(d) => d,
            None => Value::PyNone,
        };
        Ok(AttrCallResult::OsCall(OsFunction::Getenv, ArgValues::Two(key, final_default)))
    } else {
        let message: String = join2("str expected, not ", key.py_type(heap, interns).as_str());
        let values: Vec<Value> = match default {
            Some(d) => vec![key, d],
            None => vec![key],
        };
        proof {
            assert(values@ =~= all);
        }
        heap.discard_all(values.as_slice());
        Err(RunError::type_error_owned(message))
    }
}

/// The arguments go to the host, or are given up.
pub proof fn lemma_env_balance<T: ResourceTracker>(
    s: Scene<T>,
    before: HeapModel<T>,
    after: HeapModel<T>,
    args: ArgValues,
    r: Result<AttrCallResult, RunError>,
)
    requires
        before.wf(),
        sound(before.entries),
        asks_env(s, before, after, args, r),
    ensures
        after.wf(),
        sound(after.entries),
        r is Err ==> gives_back(before.entries, after.entries, args.values()),
        r matches Ok(result) ==> forall|x: HeapId|
            #[trigger] outside(after.entries, x) == outside(before.entries, x) - holds(args.values(), x) + holds(
                result.values(),
                x,
            ),
{
    let pos = args.positional();
    if let Ok(result) = r {
        assert(args.values() =~= pos);
        assert forall|x: HeapId| #[trigger] holds(result.values(), x) == holds(args.values(), x) by {
            let default = if pos.len() > 1 { pos[1] } else { Value::PyNone };
            assert(result.values() =~= seq![pos[0], default]);
            lemma_holds_two(pos[0], default, x);
            lemma_holds_one(pos[0], x);
            if pos.len() > 1 {
                assert(pos =~= seq![pos[0], pos[1]]);
            } else {
                assert(pos =~= seq![pos[0]]);
            }
        }
        assert forall|x: HeapId| #[trigger]
            outside(after.entries, x) == outside(before.entries, x) - holds(args.values(), x) + holds(
                result.values(),
                x,
            ) by {
            assert(holds(result.values(), x) == holds(args.values(), x));
        }
    } else {
        assert forall|x: HeapId| #[trigger]
            outside(after.entries, x) == outside(before.entries, x) - holds(args.values(), x) by {
            assert(outside(after.entries, x) == outside(before.entries, x) - tally(refs(args.values()), x));
        }
    }
}

} // verus!
