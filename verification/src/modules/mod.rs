//! Built-in module implementations.
//!
//! This module provides implementations for Python built-in modules like `collections`,
//! `os` and `re`. These are created on-demand when import statements are executed.

use crate::args::{ArgValues, lemma_owned_sound, owns};
use crate::equality::{Scene, scene};
use crate::exceptions::RunError;
use crate::heap::{Heap, HeapModel};
use crate::heap_model::{outside, sound};
use crate::intern::{Interns, StaticStrings, StringId, static_id, static_ids_are_distinct};
use crate::modules::attributes::makes_module;
use crate::resource::{ResourceError, ResourceTracker};
use crate::text::{join3, numeral, write_numeral};
use crate::types::lookup::legible;
use crate::types::module::balances;
use crate::types::namedtuple_args::{plan_type, presentable, room_for_defaults};
use crate::types::py_trait::{AttrCallResult, NativeCall};
use crate::value::{HeapId, holds, lemma_holds_one};
use vstd::prelude::*;

pub mod asyncio;
pub mod attributes;
pub mod collections;
pub mod os;
pub mod re;

verus! {

/// All stdlib module function (but not builtins).
#[derive(Debug, Clone, Copy, PartialEq, Eq, Structural, Hash)]
pub enum ModuleFunctions {
    Asyncio(asyncio::AsyncioFunctions),
    Collections(collections::CollectionsFunctions),
    Os(os::OsFunctions),
    Re(re::ReFunctions),
}

impl ModuleFunctions {
    /// The function's name.
    pub open spec fn name(self) -> Seq<char> {
        match self {
            ModuleFunctions::Asyncio(f) => f.name(),
            ModuleFunctions::Collections(f) => f.name(),
            ModuleFunctions::Os(f) => f.name(),
            ModuleFunctions::Re(f) => f.name(),
        }
    }

    /// Returns the function's name.
    pub fn as_str(self) -> (r: &'static str)
        ensures
            r@ == self.name(),
    {
        match self {
            ModuleFunctions::Asyncio(f) => f.as_str(),
            ModuleFunctions::Collections(f) => f.as_str(),
            ModuleFunctions::Os(f) => f.as_str(),
            ModuleFunctions::Re(f) => f.as_str(),
        }
    }

    /// Writes the Python repr() string for this function: its name and, in
    /// hexadecimal, its identity.
    pub fn py_repr_fmt(self, py_id: usize) -> (r: String)
        ensures
            r@ == "<function "@ + self.name() + " at 0x"@ + numeral(py_id as nat, 16) + ">"@,
    {
        let head: String = join3("<function ", self.as_str(), " at 0x");
        let id: String = write_numeral(py_id as u64, 16);
        join3(head.as_str(), id.as_str(), ">")
    }
}

/// Built-in modules that can be imported.
#[derive(Debug, Clone, Copy, PartialEq, Eq, Structural)]
pub enum BuiltinModule {
    /// The `sys` module providing system-specific parameters and functions.
    Sys,
    /// The `collections` module providing collection helpers like `namedtuple`.
    Collections,
    /// The `typing` module providing type hints support.
    Typing,
    /// The `asyncio` module providing async/await support (only `gather()` implemented).
    Asyncio,
    /// The `pathlib` module providing object-oriented filesystem paths.
    Pathlib,
    /// The `os` module providing operating system interface (only `getenv()` implemented).
    Os,
    /// The `re` module providing regular expression matching.
    Re,
}

impl BuiltinModule {
    /// The static string that names the module.
    pub open spec fn static_name(self) -> StaticStrings {
        match self {
            BuiltinModule::Sys => StaticStrings::Sys,
            BuiltinModule::Collections => StaticStrings::Collections,
            BuiltinModule::Typing => StaticStrings::Typing,
            BuiltinModule::Asyncio => StaticStrings::Asyncio,
            BuiltinModule::Pathlib => StaticStrings::Pathlib,
            BuiltinModule::Os => StaticStrings::Os,
            BuiltinModule::Re => StaticStrings::Re,
        }
    }

    /// Get the module from a string ID.
    pub fn from_string_id(string_id: StringId) -> (r: Option<BuiltinModule>)
        ensures
            r matches Some(m) ==> static_id(m.static_name()) == string_id,
            r is None ==> forall|m: BuiltinModule| static_id(#[trigger] m.static_name()) != string_id,
    {
        let found: StaticStrings = match StaticStrings::from_string_id(string_id) {
            Some(found) => found,
            None => {
                return None;
            },
        };
        let r: Option<BuiltinModule> = match found {
            StaticStrings::Sys => Some(BuiltinModule::Sys),
            StaticStrings::Collections => Some(BuiltinModule::Collections),
            StaticStrings::Typing => Some(BuiltinModule::Typing),
            StaticStrings::Asyncio => Some(BuiltinModule::Asyncio),
            StaticStrings::Pathlib => Some(BuiltinModule::Pathlib),
            StaticStrings::Os => Some(BuiltinModule::Os),
            StaticStrings::Re => Some(BuiltinModule::Re),
            _ => None,
        };
        proof {
            if r is None {
                assert forall|m: BuiltinModule| static_id(#[trigger] m.static_name()) != string_id by {
                    if static_id(m.static_name()) == string_id {
                        static_ids_are_distinct(m.static_name(), found);
                    }
                }
            }
        }
        r
    }
}

impl BuiltinModule {
    /// The attributes of the modules that are made here.
    pub open spec fn attributes(self) -> Option<Seq<attributes::Attribute>> {
        match self {
            BuiltinModule::Collections => Some(collections::attributes()),
            BuiltinModule::Os => Some(os::attributes()),
            BuiltinModule::Re => Some(re::attributes()),
            _ => None,
        }
    }

    /// Creates a new instance of this module on the heap.
    ///
    /// Returns a HeapId pointing to the newly allocated module, or `None` for a
    /// module that another part of the interpreter makes.
    pub fn create<T: ResourceTracker>(self, heap: &mut Heap<T>, interns: &Interns) -> (r: Result<
        Option<HeapId>,
        ResourceError,
    >)
        requires
            old(heap)@.wf(),
            sound(old(heap)@.entries),
            old(heap)@.entries.len() < usize::MAX,
        ensures
            final(heap)@.wf(),
            match self.attributes() {
                Some(list) => match r {
                    Ok(Some(id)) => makes_module(old(heap)@, final(heap)@, self.static_name(), list, Ok(id)),
                    Ok(None) => false,
                    Err(e) => makes_module(old(heap)@, final(heap)@, self.static_name(), list, Err(e)),
                },
                None => r == Ok::<Option<HeapId>, ResourceError>(None) && final(heap)@ == old(heap)@,
            },
    {
        let made: Result<HeapId, ResourceError> = match self {
            BuiltinModule::Collections => collections::create_module(heap, interns),
            BuiltinModule::Os => os::create_module(heap, interns),
            BuiltinModule::Re => re::create_module(heap, interns),
            _ => {
                return Ok(None);
            },
        };
        match made {
            Ok(id) => Ok(Some(id)),
            Err(e) => Err(e),
        }
    }
}

impl ModuleFunctions {
    /// Can the function be called with these arguments?
    pub open spec fn callable<T: ResourceTracker>(self, s: Scene<T>, m: HeapModel<T>, args: ArgValues) -> bool {
        match self {
            ModuleFunctions::Asyncio(_) => true,
            ModuleFunctions::Collections(_) => {
                &&& presentable(s, args.values(), args.positional().len())
                &&& room_for_defaults(m, plan_type(s, args.positional(), args.keywords(), m.recursion_depth))
            },
            ModuleFunctions::Os(_) => os::key_legible(s, args),
            ModuleFunctions::Re(_) => legible(s, args.values()),
        }
    }

    /// May a call turn the heap into `after` and give `r`?
    pub open spec fn calls<T: ResourceTracker>(
        self,
        s: Scene<T>,
        before: HeapModel<T>,
        after: HeapModel<T>,
        args: ArgValues,
        r: Result<AttrCallResult, RunError>,
    ) -> bool {
        match self {
            ModuleFunctions::Asyncio(f) => {
                &&& r == Ok::<AttrCallResult, RunError>(AttrCallResult::Native(NativeCall::Asyncio(f, args)))
                &&& after == before
            },
            ModuleFunctions::Collections(_) => collections::calls_collections(s, before, after, args, r),
            ModuleFunctions::Os(_) => os::asks_env(s, before, after, args, r),
            ModuleFunctions::Re(f) => re::carries_out(
                before,
                after,
                args.values(),
                re::decision(s, f, args.positional(), args.keywords()),
                r,
            ),
        }
    }

    /// Calls the module function with the given arguments.
    ///
    /// Returns `AttrCallResult` to support both immediate values and OS calls that
    /// require host involvement (e.g., `os.getenv()` needs the host to provide environment variables).
    /// The `interns` parameter is needed by modules that must extract string values from
    /// `Value::InternString` arguments (e.g., the `re` module).
    pub fn call<T: ResourceTracker>(self, heap: &mut Heap<T>, args: ArgValues, interns: &Interns) -> (r: Result<
        AttrCallResult,
        RunError,
    >)
        requires
            old(heap)@.wf(),
            old(heap)@.entries.len() < usize::MAX,
            owns(old(heap)@.entries, args.values()),
            self.callable(scene(old(heap)@, *interns), old(heap)@, args),
        ensures
            self.calls(scene(old(heap)@, *interns), old(heap)@, final(heap)@, args, r),
            balances(old(heap)@, final(heap)@, args.values(), r),
    {
        let r: Result<AttrCallResult, RunError> = match self {
            ModuleFunctions::Asyncio(functions) => Ok(AttrCallResult::Native(NativeCall::Asyncio(functions, args))),
            ModuleFunctions::Collections(functions) => collections::call(heap, functions, args, interns),
            ModuleFunctions::Os(functions) => os::call(heap, functions, args, interns),
            ModuleFunctions::Re(functions) => re::call(heap, functions, args, interns),
        };
        proof {
            let s = scene(old(heap)@, *interns);
            match self {
                ModuleFunctions::Asyncio(_) => {
                    lemma_owned_sound(heap@, args.values());
                },
                ModuleFunctions::Collections(_) => {
                    if let Ok(AttrCallResult::Value(v)) = r {
                        assert forall|x: HeapId| #[trigger]
                            outside(heap@.entries, x) == outside(old(heap)@.entries, x) - holds(args.values(), x)
                                + holds(seq![v], x) by {
                            lemma_holds_one(v, x);
                        }
                    }
                },
                ModuleFunctions::Os(_) => {
                    lemma_owned_sound(old(heap)@, args.values());
                    os::lemma_env_balance(s, old(heap)@, heap@, args, r);
                },
                ModuleFunctions::Re(f) => {
                    re::lemma_regex_balance(
                        old(heap)@,
                        heap@,
                        args.values(),
                        re::decision(s, f, args.positional(), args.keywords()),
                        r,
                    );
                },
            }
        }
        r
    }
}

} // verus!
