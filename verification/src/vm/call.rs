//! Function call helpers for the VM.
//!
//! This module contains the implementation of call-related opcodes and helper
//! functions for executing function calls. The main entry points are the `exec_*`
//! methods which are called from the VM's main dispatch loop.

use crate::args::{ArgValues, gives_back, lemma_given_back, lemma_owned_sound, owns, spares_others};
use crate::binding::legible_keys;
use crate::exceptions::{ErrorView, RunError, type_error_view};
use crate::function::copy_vec;
use crate::growth::{lemma_bumped_room, lemma_less_room};
use crate::hash::has_name;
use crate::heap::HeapModel;
use crate::heap_data::{HeapData, child_ids};
use crate::heap_model::{
    Entries, data_at, kept, live, outside, readable, sound, sound_heaps_have_no_dangling_references,
};
use crate::heap_ops::{all_live, bumped, lemma_bumped, lemma_bumped_trans, lemma_refs_len, slot_bumped};
use crate::intern::FunctionId;
use crate::modules::ModuleFunctions;
use crate::os::OsFunction;
use crate::resource::ResourceTracker;
use crate::text::join3;
use crate::types::namedtuple_factory::{NamedTupleFactory, copies_construct_alike, has_names, same_factory};
use crate::types::py_trait::{AttrCallResult, NativeCall};
use crate::value::{EitherStr, HeapId, Value, holds, lemma_holds_one, lemma_no_refs, refs, same_name, tally};
use crate::vm::cells::{count_cells, ref_values};
use crate::vm::frames::{call_room, calls_def, lemma_given_holds};
use crate::vm::{VM, VmModel};
use vstd::prelude::*;
use vstd::std_specs::convert::FromSpec;

verus! {

/// Result of executing a call opcode.
///
/// Used by the `exec_*` methods to communicate what action the VM's main loop
/// should take after the call completes.
#[derive(Debug)]
pub enum CallResult {
    /// Call completed successfully - push this value onto the stack.
    Push(Value),
    /// A new frame was pushed for a defined function call.
    /// The VM should reload its cached frame state.
    FramePushed,
    /// External function call requested - VM should pause and return to caller.
    /// The `EitherStr` is the name of the external function (interned or heap-owned).
    External(EitherStr, ArgValues),
    /// OS operation call requested - VM should yield `FrameExit::OsCall` to host.
    ///
    /// The host executes the OS operation and resumes the VM with the result.
    OsCall(OsFunction, ArgValues),
    /// Dataclass method call requested - VM should yield `FrameExit::MethodCall` to host.
    ///
    /// The method name (e.g. `"distance"`) and the args include the dataclass instance
    /// as the first argument (`self`). Unlike `External`, this uses an `EitherStr` instead
    /// of an interned name since method names are only known at runtime.
    MethodCall(EitherStr, ArgValues),
    /// The call returned a value that should be implicitly awaited.
    AwaitValue(Value),
    /// Another part of the interpreter has to do the work.
    Native(NativeCall),
}

impl CallResult {
    /// The values that the result holds.
    pub open spec fn values(self) -> Seq<Value> {
        match self {
            CallResult::Push(v) => seq![v],
            CallResult::FramePushed => Seq::empty(),
            CallResult::External(_, args) => args.values(),
            CallResult::OsCall(_, args) => args.values(),
            CallResult::MethodCall(_, args) => args.values(),
            CallResult::AwaitValue(v) => seq![v],
            CallResult::Native(call) => call.values(),
        }
    }
}

impl From<AttrCallResult> for CallResult {
    fn from(result: AttrCallResult) -> (r: CallResult) {
        match result {
            AttrCallResult::Value(v) => CallResult::Push(v),
            AttrCallResult::OsCall(func, args) => CallResult::OsCall(func, args),
            AttrCallResult::ExternalCall(ext_id, args) => CallResult::External(EitherStr::Interned(ext_id), args),
            AttrCallResult::MethodCall(name, args) => CallResult::MethodCall(name, args),
            AttrCallResult::AwaitValue(v) => CallResult::AwaitValue(v),
            AttrCallResult::Native(call) => CallResult::Native(call),
        }
    }
}

impl vstd::std_specs::convert::FromSpecImpl<AttrCallResult> for CallResult {
    open spec fn obeys_from_spec() -> bool {
        true
    }

    open spec fn from_spec(result: AttrCallResult) -> CallResult {
        match result {
            AttrCallResult::Value(v) => CallResult::Push(v),
            AttrCallResult::OsCall(func, args) => CallResult::OsCall(func, args),
            AttrCallResult::ExternalCall(ext_id, args) => CallResult::External(EitherStr::Interned(ext_id), args),
            AttrCallResult::MethodCall(name, args) => CallResult::MethodCall(name, args),
            AttrCallResult::AwaitValue(v) => CallResult::AwaitValue(v),
            AttrCallResult::Native(call) => CallResult::Native(call),
        }
    }
}

/// Are exactly the references in `given` gone, for those that the result holds?
///
/// A new frame takes some of them over.
pub open spec fn settles_up(before: Entries, after: Entries, given: Seq<Value>, r: Result<CallResult, RunError>) -> bool {
    match r {
        Ok(CallResult::FramePushed) => spares_others(before, after, given),
        Ok(result) => forall|x: HeapId| #[trigger]
            outside(after, x) == outside(before, x) - holds(given, x) + holds(result.values(), x),
        Err(_) => gives_back(before, after, given),
    }
}

// ---------------------------------------------------------------------------
// What can be called, and what a call does
// ---------------------------------------------------------------------------

/// Is a copy of the factory all that a call needs?
pub open spec fn factory_ready<T: ResourceTracker>(m: VmModel<T>, f: NamedTupleFactory, args: ArgValues) -> bool {
    &&& f.wf()
    &&& m.heap.entries.len() < usize::MAX
    &&& m.heap.room(f.field_names@.len())
    &&& has_name(m.interns.tables(), f.typename)
    &&& has_names(m.interns.tables(), f.field_names@)
    &&& f.field_names@.len() < usize::MAX
    &&& args.positional().len() < usize::MAX
    &&& legible_keys(m.scene(), args.values(), args.positional().len())
}

impl<T: ResourceTracker> VmModel<T> {
    /// Can a function on the heap be called? Its cells and defaults are counted once more.
    pub open spec fn closure_ready(
        self,
        id: FunctionId,
        cells: Seq<HeapId>,
        defaults: Seq<Value>,
        args: ArgValues,
    ) -> bool {
        &&& self.function_ready(id, cells, defaults, args)
        &&& self.heap.room(call_room(self.function(id), cells.len()) + cells.len() + defaults.len())
    }

    /// Can the value be called with these arguments?
    pub open spec fn call_ready(self, callable: Value, args: ArgValues) -> bool {
        match callable {
            Value::ModuleFunction(mf) => self.heap.entries.len() < usize::MAX && mf.callable(
                self.scene(),
                self.heap,
                args,
            ),
            Value::DefFunction(id) => self.function_ready(id, Seq::empty(), Seq::empty(), args),
            Value::Ref(id) => readable(self.heap.entries, id) && match data_at(self.heap.entries, id) {
                HeapData::NamedTupleFactory(f) => factory_ready(self, f, args),
                HeapData::Closure(c) => self.closure_ready(c.func_id, c.cells@, c.defaults@, args),
                HeapData::FunctionDefaults(fd) => self.closure_ready(fd.func_id, Seq::empty(), fd.defaults@, args),
                _ => true,
            },
            _ => true,
        }
    }

    /// Is the call refused, with all arguments given up?
    pub open spec fn refuses_call(
        self,
        after: VmModel<T>,
        args: ArgValues,
        error: ErrorView,
        r: Result<CallResult, RunError>,
    ) -> bool {
        &&& r matches Err(e) && e@ == error
        &&& after == self.with_heap(after.heap)
        &&& self.heap.gave_up(after.heap, refs(args.values()))
    }

    /// May calling a function of a module turn the machine into `after` and give `r`?
    pub open spec fn calls_module(
        self,
        after: VmModel<T>,
        mf: ModuleFunctions,
        args: ArgValues,
        r: Result<CallResult, RunError>,
    ) -> bool {
        &&& after == self.with_heap(after.heap)
        &&& exists|outcome: Result<AttrCallResult, RunError>|
            #[trigger] mf.calls(self.scene(), self.heap, after.heap, args, outcome) && is_from(outcome, r)
    }

    /// May calling a function with captured cells and defaults turn the machine into
    /// `after` and give `r`?
    pub open spec fn calls_closure(
        self,
        after: VmModel<T>,
        id: FunctionId,
        cells: Seq<HeapId>,
        defaults: Seq<Value>,
        args: ArgValues,
        r: Result<CallResult, RunError>,
    ) -> bool {
        exists|counted: HeapModel<T>|
            {
                &&& #[trigger] bumped(self.heap.entries, counted.entries, refs(defaults) + cells)
                &&& counted == self.heap.with_entries(counted.entries)
                &&& calls_def(self.with_heap(counted), after, id, cells, defaults, args, r)
            }
    }

    /// May calling a payload turn the machine into `after` and give `r`?
    pub open spec fn calls_heap(
        self,
        after: VmModel<T>,
        data: HeapData,
        args: ArgValues,
        r: Result<CallResult, RunError>,
    ) -> bool {
        match data {
            HeapData::NamedTupleFactory(f) => after == self.with_heap(after.heap) && match r {
                Ok(CallResult::Push(v)) => f.constructs(self.scene(), self.heap, after.heap, args, Ok(v)),
                Ok(_) => false,
                Err(e) => f.constructs(self.scene(), self.heap, after.heap, args, Err(e)),
            },
            HeapData::Closure(c) => self.calls_closure(after, c.func_id, c.cells@, c.defaults@, args, r),
            HeapData::FunctionDefaults(fd) => self.calls_closure(
                after,
                fd.func_id,
                Seq::empty(),
                fd.defaults@,
                args,
                r,
            ),
            HeapData::ExtFunction(name) => {
                &&& r matches Ok(CallResult::External(EitherStr::Heap(asked), passed)) && asked@ == name@ && passed
                    == args
                &&& after == self
            },
            _ => self.refuses_call(after, args, type_error_view("object is not callable"@), r),
        }
    }

    /// May calling a value turn the machine into `after` and give `r`?
    pub open spec fn calls(
        self,
        after: VmModel<T>,
        callable: Value,
        args: ArgValues,
        r: Result<CallResult, RunError>,
    ) -> bool {
        match callable {
            Value::Builtin(b) => {
                &&& r == Ok::<CallResult, RunError>(CallResult::Native(NativeCall::Builtin(b, args)))
                &&& after == self
            },
            Value::ModuleFunction(mf) => self.calls_module(after, mf, args, r),
            Value::ExtFunction(name_id) => {
                &&& r == Ok::<CallResult, RunError>(CallResult::External(EitherStr::Interned(name_id), args))
                &&& after == self
            },
            Value::DefFunction(id) => calls_def(self, after, id, Seq::empty(), Seq::empty(), args, r),
            Value::Ref(id) => self.calls_heap(after, data_at(self.heap.entries, id), args, r),
            _ => self.refuses_call(
                after,
                args,
                type_error_view("'"@ + self.scene().type_of(callable).name() + "' object is not callable"@),
                r,
            ),
        }
    }
}

/// Is `r` what the result of an attribute call becomes?
pub open spec fn is_from(outcome: Result<AttrCallResult, RunError>, r: Result<CallResult, RunError>) -> bool {
    match outcome {
        Ok(result) => r == Ok::<CallResult, RunError>(CallResult::from_spec(result)),
        Err(e) => r == Err::<CallResult, RunError>(e),
    }
}

/// Turns the result of an attribute call into that of a call.
pub fn into_call(outcome: Result<AttrCallResult, RunError>) -> (r: Result<CallResult, RunError>)
    ensures
        is_from(outcome, r),
{
    match outcome {
        Ok(result) => Ok(CallResult::from(result)),
        Err(e) => Err(e),
    }
}

/// Counting references changes nothing that arguments are read by.
pub proof fn lemma_counted_ready<T: ResourceTracker>(
    before: VmModel<T>,
    counted: HeapModel<T>,
    id: FunctionId,
    cells: Seq<HeapId>,
    defaults: Seq<Value>,
    args: ArgValues,
)
    requires
        before.closure_ready(id, cells, defaults, args),
        bumped(before.heap.entries, counted.entries, refs(defaults) + cells),
        counted == before.heap.with_entries(counted.entries),
    ensures
        before.with_heap(counted).function_ready(id, cells, defaults, args),
{
    let a = before.heap.entries;
    let b = counted.entries;
    let f = before.function(id);
    lemma_refs_len(defaults);
    lemma_bumped_room(
        before.heap,
        counted,
        refs(defaults) + cells,
        call_room(f, cells.len()) + cells.len() + defaults.len(),
    );
    lemma_less_room(
        counted,
        (call_room(f, cells.len()) + cells.len() + defaults.len() - (refs(defaults) + cells).len()) as nat,
        call_room(f, cells.len()),
    );
    let all = args.values();
    let n = args.positional().len();
    let s = before.scene();
    let t = before.with_heap(counted).scene();
    assert forall|k: int| n <= k < all.len() && (k - n) % 2 == 0 implies t.has(#[trigger] all[k]) && (
    all[k] matches Value::Ref(x) ==> readable(t.entries, x)) by {
        assert(s.has(all[k]));
        if let Value::Ref(x) = all[k] {
            assert(slot_bumped(a[x.0 as int], b[x.0 as int], tally(refs(defaults) + cells, HeapId(x.0 as usize))));
        }
    }
}

/// The references that a live entry holds lead to live entries.
proof fn lemma_children_live(e: Entries, id: HeapId)
    requires
        sound(e),
        readable(e, id),
    ensures
        all_live(e, child_ids(data_at(e, id))),
{
    let ids = child_ids(data_at(e, id));
    assert forall|i: int| 0 <= i < ids.len() implies live(e, #[trigger] ids[i]) by {
        sound_heaps_have_no_dangling_references(e, id, i);
    }
}

impl<T: ResourceTracker> VM<T> {
    /// Calls a callable value with the given arguments.
    ///
    /// Dispatches based on the callable type:
    /// - `Value::Builtin`: asks for the builtin to be called
    /// - `Value::ModuleFunction`: calls module function directly, returns `Push`
    /// - `Value::ExtFunction`: returns `External` for caller to execute
    /// - `Value::DefFunction`: pushes a new frame, returns `FramePushed`
    /// - `Value::Ref`: checks for closure/function on heap
    pub fn call_function(&mut self, callable: &Value, args: ArgValues) -> (r: Result<CallResult, RunError>)
        requires
            old(self)@.heap.wf(),
            owns(old(self)@.heap.entries, args.values()),
            old(self)@.call_ready(*callable, args),
        ensures
            old(self)@.calls(final(self)@, *callable, args, r),
            final(self)@.heap.wf(),
            final(self)@.stack == old(self)@.stack,
            sound(final(self)@.heap.entries),
            settles_up(old(self)@.heap.entries, final(self)@.heap.entries, args.values(), r),
    {
        let ghost before = self@;
        let ghost all = args.values();
        proof {
            lemma_owned_sound(before.heap, all);
        }
        match *callable {
            Value::Builtin(builtin) => Ok(CallResult::Native(NativeCall::Builtin(builtin, args))),
            Value::ModuleFunction(mf) => {
                let outcome: Result<AttrCallResult, RunError> = mf.call(&mut self.heap, args, &self.interns);
                proof {
                    assert(mf.calls(before.scene(), before.heap, self.heap@, args, outcome));
                }
                into_call(outcome)
            },
            // External function - return to caller to execute
            Value::ExtFunction(name_id) => Ok(CallResult::External(EitherStr::Interned(name_id), args)),
            Value::DefFunction(func_id) => {
                // Defined function without defaults or captured variables
                let no_cells: Vec<HeapId> = Vec::new();
                let no_defaults: Vec<Value> = Vec::new();
                proof {
                    lemma_nothing_captured(all, no_defaults@, no_cells@);
                }
                self.call_def_function(func_id, no_cells.as_slice(), no_defaults, args)
            },
            // Could be a closure or function with defaults - check heap
            Value::Ref(heap_id) => self.call_heap_callable(heap_id, args),
            _ => {
                let message: String = join3(
                    "'",
                    callable.py_type(&self.heap, &self.interns).as_str(),
                    "' object is not callable",
                );
                args.drop_with_heap(&mut self.heap);
                proof {
                    lemma_given_back(before.heap, self.heap@, all);
                }
                Err(RunError::type_error_owned(message))
            },
        }
    }

    /// Handles calling a heap-allocated callable (closure, function with defaults, or external function).
    #[verifier::rlimit(30)]
    fn call_heap_callable(&mut self, heap_id: HeapId, args: ArgValues) -> (r: Result<CallResult, RunError>)
        requires
            old(self)@.heap.wf(),
            owns(old(self)@.heap.entries, args.values()),
            old(self)@.call_ready(Value::Ref(heap_id), args),
        ensures
            old(self)@.calls_heap(final(self)@, data_at(old(self)@.heap.entries, heap_id), args, r),
            final(self)@.heap.wf(),
            final(self)@.stack == old(self)@.stack,
            sound(final(self)@.heap.entries),
            settles_up(old(self)@.heap.entries, final(self)@.heap.entries, args.values(), r),
    {
        let ghost before = self@;
        let ghost all = args.values();
        proof {
            lemma_owned_sound(before.heap, all);
            lemma_children_live(before.heap.entries, heap_id);
        }
        let (func_id, cells, defaults): (FunctionId, Vec<HeapId>, Vec<Value>) = match self.heap.get(heap_id) {
            HeapData::NamedTupleFactory(factory) => {
                let copy: NamedTupleFactory = factory.duplicate();
                proof {
                    lemma_factory_ready(before, *factory, copy, args);
                }
                let outcome: Result<Value, RunError> = copy.call(args, &mut self.heap, &self.interns);
                proof {
                    copies_construct_alike(
                        copy,
                        *factory,
                        before.scene(),
                        before.heap,
                        self.heap@,
                        args,
                        outcome,
                    );
                    if let Ok(v) = outcome {
                        assert forall|x: HeapId| #[trigger] outside(self.heap@.entries, x) == outside(
                            before.heap.entries,
                            x,
                        ) - holds(all, x) + holds(seq![v], x) by {
                            lemma_holds_one(v, x);
                        }
                    }
                }
                return match outcome {
                    Ok(v) => Ok(CallResult::Push(v)),
                    Err(e) => Err(e),
                };
            },
            HeapData::Closure(closure) => (
                closure.func_id,
                copy_vec(closure.cells.as_slice()),
                copy_vec(closure.defaults.as_slice()),
            ),
            HeapData::FunctionDefaults(fd) => (fd.func_id, Vec::new(), copy_vec(fd.defaults.as_slice())),
            HeapData::ExtFunction(name) => {
                // Heap-allocated external function with a non-interned name
                let name: String = name.as_str().to_owned();
                return Ok(CallResult::External(EitherStr::Heap(name), args));
            },
            _ => {
                args.drop_with_heap(&mut self.heap);
                proof {
                    lemma_given_back(before.heap, self.heap@, all);
                }
                return Err(RunError::type_error("object is not callable"));
            },
        };
        proof {
            lemma_captured_live(before.heap.entries, data_at(before.heap.entries, heap_id), cells@, defaults@);
            let f = before.function(func_id);
            lemma_less_room(
                before.heap,
                call_room(f, cells@.len()) + cells@.len() + defaults@.len(),
                defaults@.len() + cells@.len(),
            );
            lemma_less_room(before.heap, defaults@.len() + cells@.len(), defaults@.len());
        }
        let cloned_defaults: Vec<Value> = self.heap.clone_values(defaults.as_slice());
        let ghost cloned = self.heap@;
        proof {
            lemma_refs_len(defaults@);
            lemma_bumped_room(before.heap, cloned, refs(defaults@), defaults@.len() + cells@.len());
            lemma_less_room(
                cloned,
                (defaults@.len() + cells@.len() - refs(defaults@).len()) as nat,
                cells@.len(),
            );
            lemma_bumped(before.heap.entries, cloned.entries, refs(defaults@));
            assert forall|i: int| 0 <= i < cells@.len() implies live(cloned.entries, #[trigger] cells@[i]) by {
                assert(live(before.heap.entries, cells@[i]));
            }
        }
        // Increment refcounts for captured cells
        count_cells(cells.as_slice(), &mut self.heap);
        let ghost counted = self.heap@;
        proof {
            lemma_bumped_trans(before.heap.entries, cloned.entries, counted.entries, refs(defaults@), cells@);
            lemma_bumped(cloned.entries, counted.entries, cells@);
            lemma_counted_ready(before, counted, func_id, cells@, defaults@, args);
            assert(self@ =~= before.with_heap(counted));
            lemma_counted_owned(before.heap.entries, cloned.entries, counted.entries, all, defaults@, cells@);
        }
        let r: Result<CallResult, RunError> = self.call_def_function(
            func_id,
            cells.as_slice(),
            cloned_defaults,
            args,
        );
        proof {
            assert(before.calls_closure(self@, func_id, cells@, defaults@, args, r)) by {
                assert(bumped(before.heap.entries, counted.entries, refs(defaults@) + cells@));
            }
            let given = all + defaults@ + ref_values(cells@);
            assert forall|x: HeapId| #[trigger]
                outside(counted.entries, x) - holds(given, x) == outside(before.heap.entries, x) - holds(all, x) by {
                lemma_given_holds(all, defaults@, cells@, x);
                assert(outside(cloned.entries, x) == outside(before.heap.entries, x) + tally(refs(defaults@), x));
                assert(outside(counted.entries, x) == outside(cloned.entries, x) + tally(cells@, x));
            }
            lemma_settled_alike(before.heap.entries, counted.entries, self.heap@.entries, all, given, r);
        }
        r
    }
}

/// Counting references first, and then giving them up too, comes to the same.
pub proof fn lemma_settled_alike(
    before: Entries,
    counted: Entries,
    after: Entries,
    all: Seq<Value>,
    given: Seq<Value>,
    r: Result<CallResult, RunError>,
)
    requires
        settles_up(counted, after, given, r),
        forall|x: HeapId| #[trigger]
            outside(counted, x) - holds(given, x) == outside(before, x) - holds(all, x),
    ensures
        settles_up(before, after, all, r),
{
    assert forall|x: HeapId| #[trigger] outside(after, x) >= outside(before, x) - holds(all, x) by {
        assert(outside(counted, x) - holds(given, x) == outside(before, x) - holds(all, x));
        if r is Err {
            assert(outside(after, x) == outside(counted, x) - holds(given, x));
        }
    }
    if let Ok(result) = r {
        if !(result is FramePushed) {
            assert forall|x: HeapId| #[trigger]
                outside(after, x) == outside(before, x) - holds(all, x) + holds(result.values(), x) by {
                assert(outside(counted, x) - holds(given, x) == outside(before, x) - holds(all, x));
            }
        }
    } else {
        assert forall|x: HeapId| #[trigger] outside(after, x) == outside(before, x) - holds(all, x) by {
            assert(outside(counted, x) - holds(given, x) == outside(before, x) - holds(all, x));
        }
    }
}

/// Once cells and defaults are counted, a call can use them up.
proof fn lemma_counted_owned(
    before: Entries,
    cloned: Entries,
    counted: Entries,
    all: Seq<Value>,
    defaults: Seq<Value>,
    cells: Seq<HeapId>,
)
    requires
        owns(before, all),
        forall|x: HeapId| #[trigger] outside(cloned, x) == outside(before, x) + tally(refs(defaults), x),
        forall|x: HeapId| #[trigger] outside(counted, x) == outside(cloned, x) + tally(cells, x),
    ensures
        owns(counted, all + defaults + ref_values(cells)),
{
    assert forall|x: HeapId| #[trigger] outside(counted, x) >= tally(refs(all + defaults + ref_values(cells)), x)
        + kept(x) by {
        lemma_given_holds(all, defaults, cells, x);
        assert(outside(before, x) >= tally(refs(all), x) + kept(x));
        assert(outside(cloned, x) == outside(before, x) + tally(refs(defaults), x));
    }
}

/// The cells and defaults of a function on the heap lead to live entries.
proof fn lemma_captured_live(e: Entries, data: HeapData, cells: Seq<HeapId>, defaults: Seq<Value>)
    requires
        all_live(e, child_ids(data)),
        match data {
            HeapData::Closure(c) => cells == c.cells@ && defaults == c.defaults@,
            HeapData::FunctionDefaults(fd) => cells.len() == 0 && defaults == fd.defaults@,
            _ => false,
        },
    ensures
        all_live(e, cells),
        all_live(e, refs(defaults)),
{
    let ids = child_ids(data);
    match data {
        HeapData::Closure(c) => {
            assert forall|i: int| 0 <= i < cells.len() implies live(e, #[trigger] cells[i]) by {
                assert(ids[i] == cells[i]);
                assert(live(e, ids[i]));
            }
            assert forall|i: int| 0 <= i < refs(defaults).len() implies live(e, #[trigger] refs(defaults)[i]) by {
                assert(ids[cells.len() + i] == refs(defaults)[i]);
                assert(live(e, ids[cells.len() + i]));
            }
        },
        _ => {},
    }
}

/// Without cells and defaults, a call uses up the arguments alone.
proof fn lemma_nothing_captured(all: Seq<Value>, defaults: Seq<Value>, cells: Seq<HeapId>)
    requires
        defaults.len() == 0,
        cells.len() == 0,
    ensures
        defaults == Seq::<Value>::empty(),
        cells == Seq::<HeapId>::empty(),
        all + defaults + ref_values(cells) == all,
{
    assert(defaults =~= Seq::empty());
    assert(cells =~= Seq::empty());
    assert(all + defaults + ref_values(cells) =~= all);
}

/// A copy of a factory can be called where the factory can.
proof fn lemma_factory_ready<T: ResourceTracker>(
    m: VmModel<T>,
    f: NamedTupleFactory,
    copy: NamedTupleFactory,
    args: ArgValues,
)
    requires
        factory_ready(m, f, args),
        same_factory(copy, f),
        all_live(m.heap.entries, child_ids(HeapData::NamedTupleFactory(f))),
    ensures
        has_name(m.interns.tables(), copy.typename),
        has_names(m.interns.tables(), copy.field_names@),
        copy.field_names@.len() == f.field_names@.len(),
        all_live(m.heap.entries, refs(copy.defaults@)),
{
    assert forall|i: int| 0 <= i < copy.field_names@.len() implies has_name(
        m.interns.tables(),
        #[trigger] copy.field_names@[i],
    ) by {
        assert(same_name(copy.field_names@[i], f.field_names@[i]));
        assert(has_name(m.interns.tables(), f.field_names@[i]));
    }
    if !f.contains_refs {
        lemma_no_refs(f.defaults@);
    }
}

} // verus!
