//! The call opcodes, and calls of attributes.

use crate::args::{ArgValues, gives_back, lemma_given_back, lemma_owns_part, owns, spares_others};
use crate::builtins::Builtins;
use crate::exceptions::{ErrorView, RunError};
use crate::heap::HeapModel;
use crate::heap_model::{Entries, data_at, kept, outside, readable, sound};
use crate::intern::StringId;
use crate::operators::{calls_payload, payload_ready};
use crate::resource::ResourceTracker;
use crate::types::Type;
use crate::types::mappings::{DictEntry, flat};
use crate::types::py_trait::{AttrCallResult, NativeCall};
use crate::value::{EitherStr, HeapId, Value, holds, lemma_holds_concat, lemma_holds_one, lemma_holds_push, refs, tally};
use crate::vm::call::{CallResult, into_call, is_from, lemma_settled_alike, settles_up};
use crate::vm::call_args::{
    Wrapping, can_unpack, given_kwargs, lemma_unpacked_counts, lemma_unpacked_owned, optional, passes, tuple_args,
    unpacked, unpacked_form,
};
use crate::vm::{VM, VmModel};
use vstd::prelude::*;

verus! {

// ---------------------------------------------------------------------------
// Calling a function and giving it up
// ---------------------------------------------------------------------------

impl<T: ResourceTracker> VmModel<T> {
    /// Is `after` the machine once the reference that `v` holds is given up?
    pub open spec fn drops(self, after: VmModel<T>, v: Value) -> bool {
        &&& after == self.with_heap(after.heap)
        &&& self.heap.gave_up(after.heap, refs(seq![v]))
    }

    /// May calling a value and giving it up turn the machine into `after` and give `r`?
    pub open spec fn calls_once(
        self,
        after: VmModel<T>,
        callable: Value,
        args: ArgValues,
        r: Result<CallResult, RunError>,
    ) -> bool {
        exists|called: VmModel<T>| #[trigger] self.calls(called, callable, args, r) && called.drops(after, callable)
    }

    /// Can the value be called with these arguments?
    pub open spec fn ready_for(
        self,
        callable: Value,
        how: Wrapping,
        pos: Seq<Value>,
        kws: Seq<DictEntry>,
    ) -> bool {
        forall|args: ArgValues| #[trigger] passes(args, how, pos, kws) ==> self.call_ready(callable, args)
    }

    /// May calling a value with these arguments, and giving it up, turn the machine into
    /// `after` and give `r`?
    pub open spec fn calls_with(
        self,
        after: VmModel<T>,
        callable: Value,
        how: Wrapping,
        pos: Seq<Value>,
        kws: Seq<DictEntry>,
        r: Result<CallResult, RunError>,
    ) -> bool {
        exists|args: ArgValues| #[trigger] passes(args, how, pos, kws) && self.calls_once(after, callable, args, r)
    }

    /// Can an attribute be called with these arguments?
    pub open spec fn attr_ready(self, obj: Value, name_id: StringId, args: ArgValues) -> bool {
        &&& self.interns.has_str(name_id)
        &&& self.heap.entries.len() < usize::MAX
        &&& obj matches Value::Ref(id) ==> {
            &&& readable(self.heap.entries, id)
            &&& payload_ready(
                &self.interns,
                self.heap,
                data_at(self.heap.entries, id),
                EitherStr::Interned(name_id),
                args,
            )
        }
    }

    /// May calling an attribute of a heap entry turn the heap into `after` and give `r`?
    ///
    /// The reference to the object is given up, unless a method of it has to be run
    /// elsewhere: that call takes it over.
    pub open spec fn calls_entry_attr(
        self,
        after: HeapModel<T>,
        id: HeapId,
        name_id: StringId,
        args: ArgValues,
        r: Result<CallResult, RunError>,
    ) -> bool {
        exists|called: HeapModel<T>, outcome: Result<AttrCallResult, RunError>|
            {
                &&& #[trigger] calls_payload(
                    &self.interns,
                    self.heap,
                    called,
                    data_at(self.heap.entries, id),
                    id,
                    EitherStr::Interned(name_id),
                    args,
                    outcome,
                )
                &&& is_from(outcome, r)
                &&& if takes_receiver(r) {
                    after == called
                } else {
                    called.gave_up(after, refs(seq![Value::Ref(id)]))
                }
            }
    }

    /// May calling an attribute turn the machine into `after` and give `r`?
    pub open spec fn calls_attr(
        self,
        after: VmModel<T>,
        obj: Value,
        name_id: StringId,
        args: ArgValues,
        r: Result<CallResult, RunError>,
    ) -> bool {
        &&& after == self.with_heap(after.heap)
        &&& match obj {
            Value::Ref(id) => self.calls_entry_attr(after.heap, id, name_id, args, r),
            Value::InternString(_) | Value::InternBytes(_) | Value::Builtin(Builtins::Type(_)) => {
                &&& r == Ok::<CallResult, RunError>(
                    CallResult::Native(
                        NativeCall::Method { receiver: obj, name: EitherStr::Interned(name_id), args },
                    ),
                )
                &&& after == self
            },
            _ => self.refuses_call(
                after,
                args,
                ErrorView::AttributeMissing {
                    of: self.scene().type_of(obj),
                    attr: self.interns.text(name_id),
                },
                r,
            ),
        }
    }

    /// Can an attribute be called with these arguments, written in this way?
    pub open spec fn attr_ready_for(
        self,
        obj: Value,
        name_id: StringId,
        how: Wrapping,
        pos: Seq<Value>,
        kws: Seq<DictEntry>,
    ) -> bool {
        forall|args: ArgValues| #[trigger] passes(args, how, pos, kws) ==> self.attr_ready(obj, name_id, args)
    }

    /// May calling an attribute with these arguments turn the machine into `after` and
    /// give `r`?
    pub open spec fn calls_attr_with(
        self,
        after: VmModel<T>,
        obj: Value,
        name_id: StringId,
        how: Wrapping,
        pos: Seq<Value>,
        kws: Seq<DictEntry>,
        r: Result<CallResult, RunError>,
    ) -> bool {
        exists|args: ArgValues| #[trigger] passes(args, how, pos, kws) && self.calls_attr(after, obj, name_id, args, r)
    }
}

/// Does the call take over the reference to its receiver?
pub open spec fn takes_receiver(r: Result<CallResult, RunError>) -> bool {
    r matches Ok(CallResult::Native(NativeCall::Method { .. })) || r matches Ok(CallResult::MethodCall(..))
}

/// What is left of a stack is owned where the rest has been used up.
proof fn lemma_rest_owned<T: ResourceTracker>(
    before: HeapModel<T>,
    after: HeapModel<T>,
    given: Seq<Value>,
    rest: Seq<Value>,
)
    requires
        owns(before.entries, given + rest),
        spares_others(before.entries, after.entries, given),
    ensures
        owns(after.entries, rest),
{
    assert forall|x: HeapId| #[trigger] outside(after.entries, x) >= tally(refs(rest), x) + kept(x) by {
        lemma_holds_concat(given, rest, x);
        assert(outside(before.entries, x) >= tally(refs(given + rest), x) + kept(x));
        assert(outside(after.entries, x) >= outside(before.entries, x) - holds(given, x));
    }
}

impl<T: ResourceTracker> VM<T> {
    /// Calls a value with the given arguments, and gives it up.
    pub fn call_once(&mut self, callable: Value, args: ArgValues) -> (r: Result<CallResult, RunError>)
        requires
            old(self)@.heap.wf(),
            owns(old(self)@.heap.entries, args.values().push(callable)),
            old(self)@.call_ready(callable, args),
        ensures
            old(self)@.calls_once(final(self)@, callable, args, r),
            final(self)@.heap.wf(),
            final(self)@.stack == old(self)@.stack,
            sound(final(self)@.heap.entries),
            settles_up(old(self)@.heap.entries, final(self)@.heap.entries, args.values().push(callable), r),
    {
        let ghost before = self@;
        let ghost all = args.values();
        proof {
            assert forall|x: HeapId| #[trigger] holds(all, x) <= holds(all.push(callable), x) by {
                lemma_holds_push(all, callable, x);
            }
            lemma_owns_part(before.heap.entries, all.push(callable), all);
        }
        let r: Result<CallResult, RunError> = self.call_function(&callable, args);
        let ghost called = self@;
        proof {
            assert(all.push(callable) =~= all + seq![callable]);
            lemma_settled_spares(before.heap.entries, called.heap.entries, all, r);
            lemma_rest_owned(before.heap, called.heap, all, seq![callable]);
        }
        self.heap.discard(callable);
        proof {
            assert(self@ =~= called.with_heap(self.heap@));
            assert(called.drops(self@, callable));
            assert(before.calls(called, callable, args, r));
            lemma_settled_and_given_up(before.heap.entries, called.heap, self.heap@, all, callable, r);
        }
        r
    }

    /// Calls an attribute on an object.
    ///
    /// For heap-allocated objects (`Value::Ref`), dispatches to the type's
    /// attribute call implementation via `Heap::call_attr()`, which may return
    /// `AttrCallResult::OsCall`, `AttrCallResult::ExternalCall`, or
    /// `AttrCallResult::MethodCall` for operations that require host involvement.
    ///
    /// The methods of interned strings and bytes, and the class methods of types, are
    /// asked for.
    pub fn call_attr(&mut self, obj: Value, name_id: StringId, args: ArgValues) -> (r: Result<CallResult, RunError>)
        requires
            old(self)@.heap.wf(),
            owns(old(self)@.heap.entries, args.values().push(obj)),
            old(self)@.attr_ready(obj, name_id, args),
        ensures
            old(self)@.calls_attr(final(self)@, obj, name_id, args, r),
            final(self)@.heap.wf(),
            sound(final(self)@.heap.entries),
            spares_others(old(self)@.heap.entries, final(self)@.heap.entries, args.values().push(obj)),
            r is Err ==> gives_back(old(self)@.heap.entries, final(self)@.heap.entries, args.values().push(obj)),
    {
        let ghost before = self@;
        let ghost all = args.values();
        proof {
            assert forall|x: HeapId| #[trigger] holds(all, x) <= holds(all.push(obj), x) by {
                lemma_holds_push(all, obj, x);
            }
            lemma_owns_part(before.heap.entries, all.push(obj), all);
        }
        match obj {
            Value::Ref(heap_id) => {
                let attr: EitherStr = EitherStr::Interned(name_id);
                let outcome: Result<AttrCallResult, RunError> = self.heap.call_attr(
                    heap_id,
                    &attr,
                    args,
                    &self.interns,
                );
                let ghost called = self.heap@;
                let ghost kept_outcome = outcome;
                let r: Result<CallResult, RunError> = into_call(outcome);
                proof {
                    assert(spares_others(before.heap.entries, called.entries, all));
                    assert(all.push(obj) =~= all + seq![obj]);
                    lemma_rest_owned(before.heap, called, all, seq![obj]);
                    lemma_owns_part(called.entries, seq![obj], seq![obj]);
                }
                let keep: bool = matches!(
                    &r,
                    Ok(CallResult::Native(NativeCall::Method { .. })) | Ok(CallResult::MethodCall(..))
                );
                if !keep {
                    self.heap.discard(obj);
                }
                proof {
                    assert(calls_payload(
                        &before.interns,
                        before.heap,
                        called,
                        data_at(before.heap.entries, heap_id),
                        heap_id,
                        EitherStr::Interned(name_id),
                        args,
                        kept_outcome,
                    ));
                    assert(self@ =~= before.with_heap(self.heap@));
                    assert forall|x: HeapId| #[trigger] outside(self.heap@.entries, x) >= outside(
                        before.heap.entries,
                        x,
                    ) - holds(all.push(obj), x) && (r is Err ==> outside(self.heap@.entries, x) == outside(
                        before.heap.entries,
                        x,
                    ) - holds(all.push(obj), x)) by {
                        lemma_holds_push(all, obj, x);
                        lemma_holds_one(obj, x);
                        assert(outside(called.entries, x) >= outside(before.heap.entries, x) - holds(all, x));
                        if r is Err {
                            assert(outside(called.entries, x) == outside(before.heap.entries, x) - holds(all, x));
                        }
                        if !keep {
                            assert(outside(self.heap@.entries, x) == outside(called.entries, x) - tally(
                                refs(seq![obj]),
                                x,
                            ));
                        }
                    }
                }
                r
            },
            Value::InternString(_) | Value::InternBytes(_) | Value::Builtin(Builtins::Type(_)) => {
                let name: EitherStr = EitherStr::Interned(name_id);
                Ok(CallResult::Native(NativeCall::Method { receiver: obj, name, args }))
            },
            _ => {
                // Non-heap values without method support
                let of: Type = obj.py_type(&self.heap, &self.interns);
                args.drop_with_heap(&mut self.heap);
                proof {
                    lemma_given_back(before.heap, self.heap@, all);
                    assert forall|x: HeapId| #[trigger] outside(self.heap@.entries, x) == outside(
                        before.heap.entries,
                        x,
                    ) - holds(all.push(obj), x) by {
                        lemma_holds_push(all, obj, x);
                        assert(outside(self.heap@.entries, x) == outside(before.heap.entries, x) - holds(all, x));
                    }
                }
                Err(RunError::AttributeMissing { of, attr: self.interns.get_str(name_id).to_owned() })
            },
        }
    }
}

// ---------------------------------------------------------------------------
// Calls with unpacked arguments
// ---------------------------------------------------------------------------

impl<T: ResourceTracker> VmModel<T> {
    /// Once the arguments are unpacked, can the value be called with them?
    pub open spec fn extended_ready(self, callable: Value, args_tuple: Value, kwargs: Option<Value>) -> bool {
        forall|h: HeapModel<T>| #[trigger]
            unpacked(self.heap, h, args_tuple, kwargs) && h.wf() ==> self.with_heap(h).ready_for(
                callable,
                unpacked_form(kwargs),
                tuple_args(self.heap, args_tuple),
                given_kwargs(self.heap, kwargs),
            )
    }

    /// May calling a value with unpacked arguments turn the machine into `after` and give
    /// `r`? The value, the tuple and the dictionary are given up.
    pub open spec fn calls_extended(
        self,
        after: VmModel<T>,
        callable: Value,
        args_tuple: Value,
        kwargs: Option<Value>,
        r: Result<CallResult, RunError>,
    ) -> bool {
        exists|h: HeapModel<T>, called: VmModel<T>|
            {
                &&& #[trigger] unpacked(self.heap, h, args_tuple, kwargs)
                &&& self.with_heap(h).calls_with(
                    called,
                    callable,
                    unpacked_form(kwargs),
                    tuple_args(self.heap, args_tuple),
                    given_kwargs(self.heap, kwargs),
                    r,
                )
                &&& #[trigger] called.drops(after, args_tuple)
            }
    }

    /// Once the arguments are unpacked, can the attribute be called with them?
    pub open spec fn attr_extended_ready(
        self,
        obj: Value,
        name_id: StringId,
        args_tuple: Value,
        kwargs: Option<Value>,
    ) -> bool {
        forall|h: HeapModel<T>| #[trigger]
            unpacked(self.heap, h, args_tuple, kwargs) && h.wf() ==> self.with_heap(h).attr_ready_for(
                obj,
                name_id,
                unpacked_form(kwargs),
                tuple_args(self.heap, args_tuple),
                given_kwargs(self.heap, kwargs),
            )
    }

    /// May calling an attribute with unpacked arguments turn the machine into `after` and
    /// give `r`? The tuple and the dictionary are given up.
    pub open spec fn calls_attr_extended(
        self,
        after: VmModel<T>,
        obj: Value,
        name_id: StringId,
        args_tuple: Value,
        kwargs: Option<Value>,
        r: Result<CallResult, RunError>,
    ) -> bool {
        exists|h: HeapModel<T>, called: VmModel<T>|
            {
                &&& #[trigger] unpacked(self.heap, h, args_tuple, kwargs)
                &&& self.with_heap(h).calls_attr_with(
                    called,
                    obj,
                    name_id,
                    unpacked_form(kwargs),
                    tuple_args(self.heap, args_tuple),
                    given_kwargs(self.heap, kwargs),
                    r,
                )
                &&& after == called.with_heap(after.heap)
                &&& #[trigger] called.heap.gave_up(after.heap, refs(seq![args_tuple]))
            }
    }
}

/// What is passed holds what the tuple and the dictionary hold.
proof fn lemma_passed_values(args: ArgValues, how: Wrapping, pos: Seq<Value>, kws: Seq<DictEntry>)
    requires
        passes(args, how, pos, kws),
    ensures
        args.values() == pos + flat(kws),
{
}

impl<T: ResourceTracker> VM<T> {
    /// Calls a function with unpacked args tuple and optional kwargs dict.
    ///
    /// Used for `f(*args)` and `f(**kwargs)` style calls.
    #[verifier::rlimit(30)]
    pub fn call_function_extended(&mut self, callable: Value, args_tuple: Value, kwargs: Option<Value>) -> (r: Result<
        CallResult,
        RunError,
    >)
        requires
            old(self)@.heap.wf(),
            owns(old(self)@.heap.entries, optional(kwargs).push(args_tuple).push(callable)),
            can_unpack(old(self)@.heap, args_tuple, kwargs),
            old(self)@.extended_ready(callable, args_tuple, kwargs),
        ensures
            old(self)@.calls_extended(final(self)@, callable, args_tuple, kwargs, r),
            final(self)@.heap.wf(),
            final(self)@.stack == old(self)@.stack,
            sound(final(self)@.heap.entries),
            settles_up(
                old(self)@.heap.entries,
                final(self)@.heap.entries,
                optional(kwargs).push(args_tuple).push(callable),
                r,
            ),
    {
        let ghost before = self@;
        let ghost e = before.heap.entries;
        let ghost given = optional(kwargs).push(args_tuple).push(callable);
        let ghost how = unpacked_form(kwargs);
        let ghost pos = tuple_args(before.heap, args_tuple);
        let ghost kws = given_kwargs(before.heap, kwargs);
        let ghost none = Seq::<Value>::empty();
        proof {
            assert(given =~= optional(kwargs) + none.push(args_tuple).push(callable));
            lemma_owned_parts(e, kwargs, args_tuple, callable);
        }
        // Extract positional args from tuple and keyword args from the dictionary
        let args: ArgValues = self.unpack_args(&args_tuple, kwargs);
        let ghost h = self.heap@;
        let ghost all = args.values();
        proof {
            lemma_passed_values(args, how, pos, kws);
            lemma_unpacked_owned(before.heap, h, args_tuple, kwargs, none.push(args_tuple).push(callable));
            lemma_called_part(h.entries, all, args_tuple, callable);
            assert(before.with_heap(h).ready_for(callable, how, pos, kws));
        }
        // Call the function
        let r: Result<CallResult, RunError> = self.call_once(callable, args);
        let ghost called = self@;
        proof {
            lemma_unpacked_counts(before.heap, h, args_tuple, kwargs);
            lemma_settled_spares(h.entries, called.heap.entries, all.push(callable), r);
            lemma_tuple_owned(h, called.heap, all, args_tuple, callable);
        }
        self.heap.discard(args_tuple);
        proof {
            assert(self@ =~= called.with_heap(self.heap@));
            assert(called.drops(self@, args_tuple));
            assert(passes(args, how, pos, kws) && before.with_heap(h).calls_once(called, callable, args, r));
            assert(before.with_heap(h).calls_with(called, callable, how, pos, kws, r));
            assert(before.calls_extended(self@, callable, args_tuple, kwargs, r));
            lemma_settled_and_given_up(h.entries, called.heap, self.heap@, all.push(callable), args_tuple, r);
            let spent = all.push(callable).push(args_tuple);
            assert forall|x: HeapId| #[trigger]
                outside(h.entries, x) - holds(spent, x) == outside(e, x) - holds(given, x) by {
                lemma_holds_push(optional(kwargs), args_tuple, x);
                lemma_holds_push(optional(kwargs).push(args_tuple), callable, x);
                lemma_holds_push(all, callable, x);
                lemma_holds_push(all.push(callable), args_tuple, x);
                assert(outside(h.entries, x) == outside(e, x) + holds(pos + flat(kws), x) - holds(
                    optional(kwargs),
                    x,
                ));
            }
            lemma_settled_alike(e, h.entries, self.heap@.entries, given, spent, r);
        }
        r
    }

    /// Calls a method with unpacked args tuple and optional kwargs dict.
    ///
    /// Used for `obj.method(*args)` and `obj.method(**kwargs)` style calls.
    #[verifier::rlimit(30)]
    pub fn call_attr_extended(
        &mut self,
        obj: Value,
        name_id: StringId,
        args_tuple: Value,
        kwargs: Option<Value>,
    ) -> (r: Result<CallResult, RunError>)
        requires
            old(self)@.heap.wf(),
            owns(old(self)@.heap.entries, optional(kwargs).push(args_tuple).push(obj)),
            can_unpack(old(self)@.heap, args_tuple, kwargs),
            old(self)@.attr_extended_ready(obj, name_id, args_tuple, kwargs),
        ensures
            old(self)@.calls_attr_extended(final(self)@, obj, name_id, args_tuple, kwargs, r),
            final(self)@.heap.wf(),
            final(self)@.stack == old(self)@.stack,
            sound(final(self)@.heap.entries),
            spares_others(
                old(self)@.heap.entries,
                final(self)@.heap.entries,
                optional(kwargs).push(args_tuple).push(obj),
            ),
            r is Err ==> gives_back(
                old(self)@.heap.entries,
                final(self)@.heap.entries,
                optional(kwargs).push(args_tuple).push(obj),
            ),
    {
        let ghost before = self@;
        let ghost e = before.heap.entries;
        let ghost given = optional(kwargs).push(args_tuple).push(obj);
        let ghost how = unpacked_form(kwargs);
        let ghost pos = tuple_args(before.heap, args_tuple);
        let ghost kws = given_kwargs(before.heap, kwargs);
        let ghost none = Seq::<Value>::empty();
        proof {
            assert(given =~= optional(kwargs) + none.push(args_tuple).push(obj));
            lemma_owned_parts(e, kwargs, args_tuple, obj);
        }
        // Extract positional args from tuple and keyword args from the dictionary
        let args: ArgValues = self.unpack_args(&args_tuple, kwargs);
        let ghost h = self.heap@;
        let ghost all = args.values();
        proof {
            lemma_passed_values(args, how, pos, kws);
            lemma_unpacked_owned(before.heap, h, args_tuple, kwargs, none.push(args_tuple).push(obj));
            lemma_called_part(h.entries, all, args_tuple, obj);
            assert(before.with_heap(h).attr_ready_for(obj, name_id, how, pos, kws));
        }
        // Call the method
        let r: Result<CallResult, RunError> = self.call_attr(obj, name_id, args);
        let ghost called = self@;
        proof {
            lemma_unpacked_counts(before.heap, h, args_tuple, kwargs);
            lemma_tuple_owned(h, called.heap, all, args_tuple, obj);
        }
        self.heap.discard(args_tuple);
        proof {
            assert(self@ =~= called.with_heap(self.heap@));
            assert(passes(args, how, pos, kws) && before.with_heap(h).calls_attr(called, obj, name_id, args, r));
            assert(before.with_heap(h).calls_attr_with(called, obj, name_id, how, pos, kws, r));
            assert(called.heap.gave_up(self@.heap, refs(seq![args_tuple])));
            assert(before.calls_attr_extended(self@, obj, name_id, args_tuple, kwargs, r));
            assert forall|x: HeapId| #[trigger] outside(self.heap@.entries, x) >= outside(e, x) - holds(given, x) && (
            r is Err ==> outside(self.heap@.entries, x) == outside(e, x) - holds(given, x)) by {
                lemma_holds_push(optional(kwargs), args_tuple, x);
                lemma_holds_push(optional(kwargs).push(args_tuple), obj, x);
                lemma_holds_push(all, obj, x);
                lemma_holds_one(args_tuple, x);
                assert(outside(h.entries, x) == outside(e, x) + holds(pos + flat(kws), x) - holds(
                    optional(kwargs),
                    x,
                ));
                assert(outside(called.heap.entries, x) >= outside(h.entries, x) - holds(all.push(obj), x));
                if r is Err {
                    assert(outside(called.heap.entries, x) == outside(h.entries, x) - holds(all.push(obj), x));
                }
                assert(outside(self.heap@.entries, x) == outside(called.heap.entries, x) - tally(
                    refs(seq![args_tuple]),
                    x,
                ));
            }
        }
        r
    }
}

/// Who owns the parts of an extended call owns each of them.
proof fn lemma_owned_parts(e: Entries, kwargs: Option<Value>, args_tuple: Value, callable: Value)
    requires
        owns(e, optional(kwargs).push(args_tuple).push(callable)),
    ensures
        owns(e, optional(kwargs)),
        owns(e, seq![callable]),
        sound(e),
{
    let all = optional(kwargs).push(args_tuple).push(callable);
    assert forall|x: HeapId| #[trigger] holds(optional(kwargs), x) <= holds(all, x) by {
        lemma_holds_push(optional(kwargs), args_tuple, x);
        lemma_holds_push(optional(kwargs).push(args_tuple), callable, x);
    }
    assert forall|x: HeapId| #[trigger] holds(seq![callable], x) <= holds(all, x) by {
        lemma_holds_push(optional(kwargs).push(args_tuple), callable, x);
        lemma_holds_one(callable, x);
    }
    lemma_owns_part(e, all, optional(kwargs));
    lemma_owns_part(e, all, seq![callable]);
}

/// Who owns arguments, a tuple and a callable owns the arguments and the callable.
proof fn lemma_called_part(e: Entries, all: Seq<Value>, args_tuple: Value, callable: Value)
    requires
        owns(e, all + Seq::<Value>::empty().push(args_tuple).push(callable)),
    ensures
        owns(e, all.push(callable)),
        owns(e, seq![callable]),
        sound(e),
{
    let none = Seq::<Value>::empty();
    let whole = all + none.push(args_tuple).push(callable);
    assert forall|x: HeapId| #[trigger] holds(all.push(callable), x) <= holds(whole, x) by {
        lemma_holds_push(all, callable, x);
        lemma_holds_concat(all, none.push(args_tuple).push(callable), x);
        lemma_holds_push(none.push(args_tuple), callable, x);
    }
    assert forall|x: HeapId| #[trigger] holds(seq![callable], x) <= holds(whole, x) by {
        lemma_holds_one(callable, x);
        lemma_holds_concat(all, none.push(args_tuple).push(callable), x);
        lemma_holds_push(none.push(args_tuple), callable, x);
    }
    lemma_owns_part(e, whole, all.push(callable));
    lemma_owns_part(e, whole, seq![callable]);
}

/// After a call that uses up its arguments and the callable, the tuple is still owned.
proof fn lemma_tuple_owned<T: ResourceTracker>(
    h: HeapModel<T>,
    called: HeapModel<T>,
    all: Seq<Value>,
    args_tuple: Value,
    callable: Value,
)
    requires
        owns(h.entries, all + Seq::<Value>::empty().push(args_tuple).push(callable)),
        spares_others(h.entries, called.entries, all.push(callable)),
    ensures
        owns(called.entries, seq![args_tuple]),
{
    let none = Seq::<Value>::empty();
    assert forall|x: HeapId| #[trigger] outside(called.entries, x) >= tally(refs(seq![args_tuple]), x) + kept(x) by {
        lemma_holds_push(all, callable, x);
        lemma_holds_concat(all, none.push(args_tuple).push(callable), x);
        lemma_holds_push(none.push(args_tuple), callable, x);
        assert(none.push(args_tuple) =~= seq![args_tuple]);
        assert(outside(h.entries, x) >= tally(refs(all + none.push(args_tuple).push(callable)), x) + kept(x));
        assert(outside(called.entries, x) >= outside(h.entries, x) - holds(all.push(callable), x));
    }
}

/// What a call settles up with spares everything else.
pub proof fn lemma_settled_spares(before: Entries, after: Entries, given: Seq<Value>, r: Result<CallResult, RunError>)
    requires
        settles_up(before, after, given, r),
    ensures
        spares_others(before, after, given),
{
    assert forall|x: HeapId| #[trigger] outside(after, x) >= outside(before, x) - holds(given, x) by {
        if r is Err {
            assert(outside(after, x) == outside(before, x) - holds(given, x));
        }
    }
}

/// Giving up one more value after a call settles up with that value too.
proof fn lemma_settled_and_given_up<T: ResourceTracker>(
    before: Entries,
    called: HeapModel<T>,
    after: HeapModel<T>,
    given: Seq<Value>,
    v: Value,
    r: Result<CallResult, RunError>,
)
    requires
        settles_up(before, called.entries, given, r),
        called.gave_up(after, refs(seq![v])),
    ensures
        settles_up(before, after.entries, given.push(v), r),
{
    let whole = given.push(v);
    assert forall|x: HeapId| #[trigger] outside(after.entries, x) == outside(called.entries, x) - holds(whole, x)
        + holds(given, x) by {
        lemma_holds_push(given, v, x);
        lemma_holds_one(v, x);
        assert(outside(after.entries, x) == outside(called.entries, x) - tally(refs(seq![v]), x));
    }
    lemma_settled_spares(before, called.entries, given, r);
    assert(spares_others(before, after.entries, whole)) by {
        assert forall|x: HeapId| #[trigger] outside(after.entries, x) >= outside(before, x) - holds(whole, x) by {
            assert(outside(called.entries, x) >= outside(before, x) - holds(given, x));
        }
    }
    match r {
        Ok(CallResult::FramePushed) => {},
        Ok(result) => {
            assert forall|x: HeapId| #[trigger]
                outside(after.entries, x) == outside(before, x) - holds(whole, x) + holds(result.values(), x) by {
                assert(outside(called.entries, x) == outside(before, x) - holds(given, x) + holds(
                    result.values(),
                    x,
                ));
            }
        },
        Err(_) => {
            assert forall|x: HeapId| #[trigger] outside(after.entries, x) == outside(before, x) - holds(whole, x) by {
                assert(outside(called.entries, x) == outside(before, x) - holds(given, x));
            }
        },
    }
}

} // verus!
