//! The call opcodes.
//!
//! These methods are called from the VM's main dispatch loop to execute call-related
//! opcodes. They handle stack operations and return a result indicating what the VM
//! should do next.

use crate::args::{ArgValues, KwargsValues, gives_back, lemma_owns_part, owns, spares_others};
use crate::builtins::{Builtins, BuiltinsFunctions};
use crate::exceptions::{ErrorView, RunError};
use crate::heap::HeapModel;
use crate::heap_model::{Entries, kept, outside, sound};
use crate::intern::StringId;
use crate::resource::ResourceTracker;
use crate::text::join2;
use crate::types::Type;
use crate::types::mappings::{DictEntry, flat};
use crate::types::py_trait::NativeCall;
use crate::value::{HeapId, Value, holds, lemma_holds_concat, lemma_holds_push, refs, tally};
use crate::vm::call::{CallResult, settles_up};
use crate::vm::call_args::{Wrapping, build_args, can_unpack, lemma_zipped_holds, optional, passes, zip_keywords, zipped};
use crate::vm::exec::lemma_settled_spares;
use crate::vm::{FrameView, VM, VmModel};
use vstd::prelude::*;

verus! {

/// The stack below a callable and `n` values on top of it.
pub open spec fn below(stack: Seq<Value>, n: nat) -> Seq<Value> {
    stack.take(stack.len() - n - 1)
}

/// The value with `n` values on top of it.
pub open spec fn beneath(stack: Seq<Value>, n: nat) -> Value {
    stack[stack.len() - n - 1]
}

/// The topmost `n` values.
pub open spec fn topmost(stack: Seq<Value>, n: nat) -> Seq<Value> {
    stack.skip(stack.len() - n)
}

/// The `n` values with `k` values on top of them.
pub open spec fn middle(stack: Seq<Value>, n: nat, k: nat) -> Seq<Value> {
    stack.subrange(stack.len() - k - n, stack.len() - k)
}

/// The dictionary of an extended call.
pub open spec fn top_kwargs(stack: Seq<Value>, has_kwargs: bool) -> Option<Value> {
    if has_kwargs {
        Some(stack.last())
    } else {
        None
    }
}

/// How many values lie on top of the callable of an extended call.
pub open spec fn extended_len(has_kwargs: bool) -> nat {
    if has_kwargs {
        2
    } else {
        1
    }
}

/// The tuple of an extended call.
pub open spec fn top_tuple(stack: Seq<Value>, has_kwargs: bool) -> Value {
    stack[stack.len() - extended_len(has_kwargs)]
}

impl<T: ResourceTracker> VmModel<T> {
    /// May calling the value under `n` arguments turn the machine into `after` and give
    /// `r`?
    pub open spec fn runs_call(self, after: VmModel<T>, n: nat, r: Result<CallResult, RunError>) -> bool {
        self.with_stack(below(self.stack, n)).calls_with(
            after,
            beneath(self.stack, n),
            Wrapping::Plain,
            topmost(self.stack, n),
            Seq::empty(),
            r,
        )
    }

    /// May calling the value under `n` positional arguments and the values of the keywords
    /// turn the machine into `after` and give `r`?
    pub open spec fn runs_call_kw(
        self,
        after: VmModel<T>,
        n: nat,
        names: Seq<StringId>,
        r: Result<CallResult, RunError>,
    ) -> bool {
        self.with_stack(below(self.stack, n + names.len())).calls_with(
            after,
            beneath(self.stack, n + names.len()),
            Wrapping::Named,
            middle(self.stack, n, names.len()),
            zipped(names, topmost(self.stack, names.len())),
            r,
        )
    }

    /// May calling an attribute of the value under `n` arguments turn the machine into
    /// `after` and give `r`?
    pub open spec fn runs_call_attr(
        self,
        after: VmModel<T>,
        name_id: StringId,
        n: nat,
        r: Result<CallResult, RunError>,
    ) -> bool {
        self.with_stack(below(self.stack, n)).calls_attr_with(
            after,
            beneath(self.stack, n),
            name_id,
            Wrapping::Plain,
            topmost(self.stack, n),
            Seq::empty(),
            r,
        )
    }

    /// May calling an attribute of the value under `n` positional arguments and the values
    /// of the keywords turn the machine into `after` and give `r`?
    pub open spec fn runs_call_attr_kw(
        self,
        after: VmModel<T>,
        name_id: StringId,
        n: nat,
        names: Seq<StringId>,
        r: Result<CallResult, RunError>,
    ) -> bool {
        self.with_stack(below(self.stack, n + names.len())).calls_attr_with(
            after,
            beneath(self.stack, n + names.len()),
            name_id,
            Wrapping::Named,
            middle(self.stack, n, names.len()),
            zipped(names, topmost(self.stack, names.len())),
            r,
        )
    }

    /// May calling the value under a tuple of arguments and, perhaps, a dictionary of
    /// keywords turn the machine into `after` and give `r`?
    pub open spec fn runs_call_extended(
        self,
        after: VmModel<T>,
        has_kwargs: bool,
        r: Result<CallResult, RunError>,
    ) -> bool {
        self.with_stack(below(self.stack, extended_len(has_kwargs))).calls_extended(
            after,
            beneath(self.stack, extended_len(has_kwargs)),
            top_tuple(self.stack, has_kwargs),
            top_kwargs(self.stack, has_kwargs),
            r,
        )
    }

    /// May calling an attribute of the value under a tuple of arguments and, perhaps, a
    /// dictionary of keywords turn the machine into `after` and give `r`?
    pub open spec fn runs_call_attr_extended(
        self,
        after: VmModel<T>,
        name_id: StringId,
        has_kwargs: bool,
        r: Result<CallResult, RunError>,
    ) -> bool {
        self.with_stack(below(self.stack, extended_len(has_kwargs))).calls_attr_extended(
            after,
            beneath(self.stack, extended_len(has_kwargs)),
            name_id,
            top_tuple(self.stack, has_kwargs),
            top_kwargs(self.stack, has_kwargs),
            r,
        )
    }

    /// Is the builtin asked for with the topmost `n` values, which are taken off the stack?
    pub open spec fn asks_builtin(
        self,
        after: VmModel<T>,
        builtin: Builtins,
        n: nat,
        r: Result<CallResult, RunError>,
    ) -> bool {
        &&& r matches Ok(CallResult::Native(NativeCall::Builtin(asked, args))) && asked == builtin && passes(
            args,
            Wrapping::Plain,
            topmost(self.stack, n),
            Seq::empty(),
        )
        &&& after == self.with_stack(self.stack.take(self.stack.len() - n))
    }
}

impl<T: ResourceTracker> VmModel<T> {
    /// Is the machine in order, and the stack down to `rest`?
    pub open spec fn leaves(self, rest: Seq<Value>) -> bool {
        &&& self.wf()
        &&& self.stack == rest
        &&& sound(self.heap.entries)
    }
}

/// Values off the stack and what lies below hold what the stack holds.
proof fn lemma_split_stack(stack: Seq<Value>, n: nat, given: Seq<Value>)
    requires
        n < stack.len(),
        forall|x: HeapId| #[trigger] holds(given, x) == holds(topmost(stack, n), x),
    ensures
        forall|x: HeapId| #[trigger]
            holds(given + below(stack, n).push(beneath(stack, n)), x) == holds(stack, x),
{
    let rest = below(stack, n).push(beneath(stack, n));
    assert forall|x: HeapId| #[trigger] holds(given + rest, x) == holds(stack, x) by {
        lemma_holds_concat(given, rest, x);
        lemma_holds_concat(rest, topmost(stack, n), x);
        assert(rest + topmost(stack, n) =~= stack);
        assert(holds(given, x) == holds(topmost(stack, n), x));
    }
}

/// The heap counts arguments, callable and the rest of a stack that it counts.
proof fn lemma_split_owned<T: ResourceTracker>(m: HeapModel<T>, stack: Seq<Value>, n: nat, given: Seq<Value>)
    requires
        owns(m.entries, stack),
        n < stack.len(),
        forall|x: HeapId| #[trigger] holds(given, x) == holds(topmost(stack, n), x),
    ensures
        owns(m.entries, given + below(stack, n).push(beneath(stack, n))),
        owns(m.entries, given.push(beneath(stack, n))),
{
    let callable = beneath(stack, n);
    let rest = below(stack, n);
    lemma_split_stack(stack, n, given);
    assert forall|x: HeapId| #[trigger] holds(given + rest.push(callable), x) <= holds(stack, x) by {
    }
    lemma_owns_part(m.entries, stack, given + rest.push(callable));
    assert forall|x: HeapId| #[trigger] holds(given.push(callable), x) <= holds(given + rest.push(callable), x) by {
        lemma_holds_push(given, callable, x);
        lemma_holds_concat(given, rest.push(callable), x);
        lemma_holds_push(rest, callable, x);
    }
    lemma_owns_part(m.entries, given + rest.push(callable), given.push(callable));
}

/// Where the arguments and the callable are used up, the rest is still counted.
proof fn lemma_rest_counted<T: ResourceTracker>(
    before: HeapModel<T>,
    after: HeapModel<T>,
    given: Seq<Value>,
    callable: Value,
    rest: Seq<Value>,
)
    requires
        owns(before.entries, given + rest.push(callable)),
        spares_others(before.entries, after.entries, given.push(callable)),
    ensures
        owns(after.entries, rest),
{
    assert forall|x: HeapId| #[trigger] outside(after.entries, x) >= tally(refs(rest), x) + kept(x) by {
        lemma_holds_push(given, callable, x);
        lemma_holds_concat(given, rest.push(callable), x);
        lemma_holds_push(rest, callable, x);
        assert(outside(before.entries, x) >= tally(refs(given + rest.push(callable)), x) + kept(x));
        assert(outside(after.entries, x) >= outside(before.entries, x) - holds(given.push(callable), x));
    }
}

/// Arguments without keywords hold what the values hold.
proof fn lemma_positional_values(args: ArgValues, pos: Seq<Value>)
    requires
        passes(args, Wrapping::Plain, pos, Seq::empty()),
    ensures
        args.values() == pos,
{
    assert(flat(Seq::<DictEntry>::empty()) =~= Seq::empty());
    assert(args.values() =~= pos);
}

/// Arguments with keywords hold what the values on the stack hold.
proof fn lemma_keyword_values(
    args: ArgValues,
    stack: Seq<Value>,
    pos_count: nat,
    names: Seq<StringId>,
    pos: Seq<Value>,
    values: Seq<Value>,
)
    requires
        passes(args, Wrapping::Named, pos, zipped(names, values)),
        pos_count + names.len() <= stack.len(),
        pos == middle(stack, pos_count, names.len()),
        values == topmost(stack, names.len()),
    ensures
        forall|x: HeapId| #[trigger]
            holds(args.values(), x) == holds(topmost(stack, pos_count + names.len()), x),
{
    assert forall|x: HeapId| #[trigger] holds(args.values(), x) == holds(topmost(stack, pos_count + names.len()), x) by {
        lemma_zipped_holds(names, values, x);
        lemma_holds_concat(pos, flat(zipped(names, values)), x);
        lemma_holds_concat(pos, values, x);
        assert(pos + values =~= topmost(stack, pos_count + names.len()));
    }
}

impl<T: ResourceTracker> VM<T> {
    /// Pops the positional and keyword arguments of a call and wraps them.
    fn pop_keyword_args(&mut self, pos_count: usize, kwname_ids: &Vec<StringId>) -> (r: ArgValues)
        requires
            pos_count + kwname_ids@.len() <= old(self)@.stack.len(),
        ensures
            passes(
                r,
                Wrapping::Named,
                middle(old(self)@.stack, pos_count as nat, kwname_ids@.len()),
                zipped(kwname_ids@, topmost(old(self)@.stack, kwname_ids@.len())),
            ),
            final(self)@ == old(self)@.with_stack(
                old(self)@.stack.take(old(self)@.stack.len() - pos_count - kwname_ids@.len()),
            ),
    {
        let ghost stack = self@.stack;
        // Pop keyword values (TOS is last kwarg value)
        let kw_values: Vec<Value> = self.pop_n(kwname_ids.len());
        // Pop positional arguments
        let pos_args: Vec<Value> = self.pop_n(pos_count);
        proof {
            assert(pos_args@ =~= middle(stack, pos_count as nat, kwname_ids@.len()));
            assert(self@.stack =~= stack.take(stack.len() - pos_count - kwname_ids@.len()));
            assert(self@ =~= old(self)@.with_stack(self@.stack));
        }
        let kwargs: KwargsValues = zip_keywords(kwname_ids, &kw_values);
        build_args(pos_args, kwargs)
    }

    /// Executes `CallFunction` opcode.
    ///
    /// Pops the callable and arguments from the stack, calls the function,
    /// and returns the result.
    pub fn exec_call_function(&mut self, arg_count: usize) -> (r: Result<CallResult, RunError>)
        requires
            old(self)@.wf(),
            arg_count < old(self)@.stack.len(),
            old(self)@.with_stack(below(old(self)@.stack, arg_count as nat)).ready_for(
                beneath(old(self)@.stack, arg_count as nat),
                Wrapping::Plain,
                topmost(old(self)@.stack, arg_count as nat),
                Seq::empty(),
            ),
        ensures
            old(self)@.runs_call(final(self)@, arg_count as nat, r),
            final(self)@.leaves(below(old(self)@.stack, arg_count as nat)),
    {
        let ghost before = self@;
        let ghost n = arg_count as nat;
        let args: ArgValues = self.pop_n_args(arg_count);
        let callable: Value = self.pop();
        let ghost all = args.values();
        let ghost rest = below(before.stack, n);
        proof {
            assert(self@.stack =~= rest);
            assert(self@ =~= before.with_stack(rest));
            lemma_positional_values(args, topmost(before.stack, n));
            lemma_split_owned(before.heap, before.stack, n, all);
        }
        let r: Result<CallResult, RunError> = self.call_once(callable, args);
        proof {
            assert(passes(args, Wrapping::Plain, topmost(before.stack, n), Seq::empty()));
            lemma_settled_spares(before.heap.entries, self.heap@.entries, all.push(callable), r);
            lemma_rest_counted(before.heap, self.heap@, all, callable, rest);
        }
        r
    }

    /// Executes `CallBuiltinFunction` opcode.
    ///
    /// Asks for a builtin function to be called, without stack manipulation for the
    /// callable.
    pub fn exec_call_builtin_function(&mut self, builtin: Option<BuiltinsFunctions>, arg_count: usize) -> (r: Result<
        CallResult,
        RunError,
    >)
        requires
            builtin is Some ==> arg_count <= old(self)@.stack.len(),
        ensures
            match builtin {
                Some(b) => old(self)@.asks_builtin(final(self)@, Builtins::Function(b), arg_count as nat, r),
                None => {
                    &&& r matches Err(e) && e@ == ErrorView::Internal("CallBuiltinFunction: invalid builtin_id"@)
                    &&& final(self)@ == old(self)@
                },
            },
    {
        match builtin {
            Some(b) => {
                let args: ArgValues = self.pop_n_args(arg_count);
                Ok(CallResult::Native(NativeCall::Builtin(Builtins::Function(b), args)))
            },
            None => Err(RunError::internal("CallBuiltinFunction: invalid builtin_id")),
        }
    }

    /// Executes `CallBuiltinType` opcode.
    ///
    /// Asks for a type constructor to be called, without stack manipulation for the
    /// callable.
    pub fn exec_call_builtin_type(&mut self, callable_type: Option<Type>, arg_count: usize) -> (r: Result<
        CallResult,
        RunError,
    >)
        requires
            callable_type is Some ==> arg_count <= old(self)@.stack.len(),
        ensures
            match callable_type {
                Some(t) => old(self)@.asks_builtin(final(self)@, Builtins::Type(t), arg_count as nat, r),
                None => {
                    &&& r matches Err(e) && e@ == ErrorView::Internal("CallBuiltinType: invalid type_id"@)
                    &&& final(self)@ == old(self)@
                },
            },
    {
        match callable_type {
            Some(t) => {
                let args: ArgValues = self.pop_n_args(arg_count);
                Ok(CallResult::Native(NativeCall::Builtin(Builtins::Type(t), args)))
            },
            None => Err(RunError::internal("CallBuiltinType: invalid type_id")),
        }
    }

    /// Executes `CallFunctionKw` opcode.
    ///
    /// Pops the callable, positional args, and keyword args from the stack,
    /// builds the appropriate `ArgValues`, and calls the function.
    pub fn exec_call_function_kw(&mut self, pos_count: usize, kwname_ids: Vec<StringId>) -> (r: Result<
        CallResult,
        RunError,
    >)
        requires
            old(self)@.wf(),
            pos_count + kwname_ids@.len() < old(self)@.stack.len(),
            old(self)@.with_stack(below(old(self)@.stack, pos_count as nat + kwname_ids@.len())).ready_for(
                beneath(old(self)@.stack, pos_count as nat + kwname_ids@.len()),
                Wrapping::Named,
                middle(old(self)@.stack, pos_count as nat, kwname_ids@.len()),
                zipped(kwname_ids@, topmost(old(self)@.stack, kwname_ids@.len())),
            ),
        ensures
            old(self)@.runs_call_kw(final(self)@, pos_count as nat, kwname_ids@, r),
            final(self)@.leaves(below(old(self)@.stack, pos_count as nat + kwname_ids@.len())),
    {
        let ghost before = self@;
        let ghost n = pos_count as nat + kwname_ids@.len();
        let args: ArgValues = self.pop_keyword_args(pos_count, &kwname_ids);
        let callable: Value = self.pop();
        let ghost all = args.values();
        let ghost rest = below(before.stack, n);
        let ghost pos = middle(before.stack, pos_count as nat, kwname_ids@.len());
        let ghost values = topmost(before.stack, kwname_ids@.len());
        proof {
            assert(self@.stack =~= rest);
            assert(self@ =~= before.with_stack(rest));
            lemma_keyword_values(args, before.stack, pos_count as nat, kwname_ids@, pos, values);
            lemma_split_owned(before.heap, before.stack, n, all);
        }
        let r: Result<CallResult, RunError> = self.call_once(callable, args);
        proof {
            assert(passes(args, Wrapping::Named, pos, zipped(kwname_ids@, values)));
            lemma_settled_spares(before.heap.entries, self.heap@.entries, all.push(callable), r);
            lemma_rest_counted(before.heap, self.heap@, all, callable, rest);
        }
        r
    }

    /// Executes `CallAttr` opcode.
    ///
    /// Pops the object and arguments from the stack, calls the attribute,
    /// and returns a `CallResult` which may indicate an OS or external call.
    pub fn exec_call_attr(&mut self, name_id: StringId, arg_count: usize) -> (r: Result<CallResult, RunError>)
        requires
            old(self)@.wf(),
            arg_count < old(self)@.stack.len(),
            old(self)@.with_stack(below(old(self)@.stack, arg_count as nat)).attr_ready_for(
                beneath(old(self)@.stack, arg_count as nat),
                name_id,
                Wrapping::Plain,
                topmost(old(self)@.stack, arg_count as nat),
                Seq::empty(),
            ),
        ensures
            old(self)@.runs_call_attr(final(self)@, name_id, arg_count as nat, r),
            final(self)@.leaves(below(old(self)@.stack, arg_count as nat)),
    {
        let ghost before = self@;
        let ghost n = arg_count as nat;
        let args: ArgValues = self.pop_n_args(arg_count);
        let obj: Value = self.pop();
        let ghost all = args.values();
        let ghost rest = below(before.stack, n);
        proof {
            assert(self@.stack =~= rest);
            assert(self@ =~= before.with_stack(rest));
            lemma_positional_values(args, topmost(before.stack, n));
            lemma_split_owned(before.heap, before.stack, n, all);
        }
        let r: Result<CallResult, RunError> = self.call_attr(obj, name_id, args);
        proof {
            assert(passes(args, Wrapping::Plain, topmost(before.stack, n), Seq::empty()));
            lemma_rest_counted(before.heap, self.heap@, all, obj, rest);
        }
        r
    }

    /// Executes `CallAttrKw` opcode.
    ///
    /// Pops the object, positional args, and keyword args from the stack,
    /// builds the appropriate `ArgValues`, and calls the attribute.
    /// Returns a `CallResult` which may indicate an OS or external call.
    pub fn exec_call_attr_kw(&mut self, name_id: StringId, pos_count: usize, kwname_ids: Vec<StringId>) -> (r: Result<
        CallResult,
        RunError,
    >)
        requires
            old(self)@.wf(),
            pos_count + kwname_ids@.len() < old(self)@.stack.len(),
            old(self)@.with_stack(below(old(self)@.stack, pos_count as nat + kwname_ids@.len())).attr_ready_for(
                beneath(old(self)@.stack, pos_count as nat + kwname_ids@.len()),
                name_id,
                Wrapping::Named,
                middle(old(self)@.stack, pos_count as nat, kwname_ids@.len()),
                zipped(kwname_ids@, topmost(old(self)@.stack, kwname_ids@.len())),
            ),
        ensures
            old(self)@.runs_call_attr_kw(final(self)@, name_id, pos_count as nat, kwname_ids@, r),
            final(self)@.leaves(below(old(self)@.stack, pos_count as nat + kwname_ids@.len())),
    {
        let ghost before = self@;
        let ghost n = pos_count as nat + kwname_ids@.len();
        let args: ArgValues = self.pop_keyword_args(pos_count, &kwname_ids);
        let obj: Value = self.pop();
        let ghost all = args.values();
        let ghost rest = below(before.stack, n);
        let ghost pos = middle(before.stack, pos_count as nat, kwname_ids@.len());
        let ghost values = topmost(before.stack, kwname_ids@.len());
        proof {
            assert(self@.stack =~= rest);
            assert(self@ =~= before.with_stack(rest));
            lemma_keyword_values(args, before.stack, pos_count as nat, kwname_ids@, pos, values);
            lemma_split_owned(before.heap, before.stack, n, all);
        }
        let r: Result<CallResult, RunError> = self.call_attr(obj, name_id, args);
        proof {
            assert(passes(args, Wrapping::Named, pos, zipped(kwname_ids@, values)));
            lemma_rest_counted(before.heap, self.heap@, all, obj, rest);
        }
        r
    }
}

/// The parts of an extended call, and what lies below, hold what the stack holds.
proof fn lemma_extended_owned<T: ResourceTracker>(m: HeapModel<T>, stack: Seq<Value>, has_kwargs: bool)
    requires
        owns(m.entries, stack),
        extended_len(has_kwargs) < stack.len(),
    ensures
        owns(
            m.entries,
            optional(top_kwargs(stack, has_kwargs)).push(top_tuple(stack, has_kwargs)).push(
                beneath(stack, extended_len(has_kwargs)),
            ),
        ),
        owns(
            m.entries,
            optional(top_kwargs(stack, has_kwargs)) + below(stack, extended_len(has_kwargs)).push(
                top_tuple(stack, has_kwargs),
            ).push(beneath(stack, extended_len(has_kwargs))),
        ),
{
    let n = extended_len(has_kwargs);
    let kw = optional(top_kwargs(stack, has_kwargs));
    let tuple = top_tuple(stack, has_kwargs);
    let callable = beneath(stack, n);
    let rest = below(stack, n);
    let whole = kw + rest.push(tuple).push(callable);
    assert forall|x: HeapId| #[trigger] holds(whole, x) <= holds(stack, x) by {
        lemma_holds_concat(kw, rest.push(tuple).push(callable), x);
        lemma_holds_push(rest.push(tuple), callable, x);
        lemma_holds_push(rest, tuple, x);
        lemma_holds_push(rest, callable, x);
        lemma_holds_push(rest.push(callable), tuple, x);
        lemma_holds_concat(rest.push(callable).push(tuple), kw, x);
        assert(rest.push(callable).push(tuple) + kw =~= stack);
    }
    lemma_owns_part(m.entries, stack, whole);
    assert forall|x: HeapId| #[trigger] holds(kw.push(tuple).push(callable), x) <= holds(whole, x) by {
        lemma_holds_concat(kw, rest.push(tuple).push(callable), x);
        lemma_holds_push(rest.push(tuple), callable, x);
        lemma_holds_push(rest, tuple, x);
        lemma_holds_push(kw, tuple, x);
        lemma_holds_push(kw.push(tuple), callable, x);
    }
    lemma_owns_part(m.entries, whole, kw.push(tuple).push(callable));
}

/// Where an extended call uses up its parts, the rest is still counted.
proof fn lemma_extended_rest<T: ResourceTracker>(
    before: HeapModel<T>,
    after: HeapModel<T>,
    kw: Seq<Value>,
    tuple: Value,
    callable: Value,
    rest: Seq<Value>,
)
    requires
        owns(before.entries, kw + rest.push(tuple).push(callable)),
        spares_others(before.entries, after.entries, kw.push(tuple).push(callable)),
    ensures
        owns(after.entries, rest),
{
    assert forall|x: HeapId| #[trigger] outside(after.entries, x) >= tally(refs(rest), x) + kept(x) by {
        lemma_holds_concat(kw, rest.push(tuple).push(callable), x);
        lemma_holds_push(rest.push(tuple), callable, x);
        lemma_holds_push(rest, tuple, x);
        lemma_holds_push(kw, tuple, x);
        lemma_holds_push(kw.push(tuple), callable, x);
        assert(outside(before.entries, x) >= tally(refs(kw + rest.push(tuple).push(callable)), x) + kept(x));
        assert(outside(after.entries, x) >= outside(before.entries, x) - holds(kw.push(tuple).push(callable), x));
    }
}

impl<T: ResourceTracker> VM<T> {
    /// Pops the dictionary, the tuple and the callable of an extended call.
    fn pop_extended(&mut self, has_kwargs: bool) -> (r: (Value, Value, Option<Value>))
        requires
            extended_len(has_kwargs) < old(self)@.stack.len(),
        ensures
            r.0 == beneath(old(self)@.stack, extended_len(has_kwargs)),
            r.1 == top_tuple(old(self)@.stack, has_kwargs),
            r.2 == top_kwargs(old(self)@.stack, has_kwargs),
            final(self)@ == old(self)@.with_stack(below(old(self)@.stack, extended_len(has_kwargs))),
    {
        let kwargs: Option<Value> = if has_kwargs {
            Some(self.pop())
        } else {
            None
        };
        let args_tuple: Value = self.pop();
        let callable: Value = self.pop();
        proof {
            assert(self@.stack =~= below(old(self)@.stack, extended_len(has_kwargs)));
            assert(self@ =~= old(self)@.with_stack(self@.stack));
        }
        (callable, args_tuple, kwargs)
    }

    /// Executes `CallFunctionExtended` opcode.
    ///
    /// Handles calls with `*args` and/or `**kwargs` unpacking.
    pub fn exec_call_function_extended(&mut self, has_kwargs: bool) -> (r: Result<CallResult, RunError>)
        requires
            old(self)@.wf(),
            extended_len(has_kwargs) < old(self)@.stack.len(),
            can_unpack(
                old(self)@.heap,
                top_tuple(old(self)@.stack, has_kwargs),
                top_kwargs(old(self)@.stack, has_kwargs),
            ),
            old(self)@.with_stack(below(old(self)@.stack, extended_len(has_kwargs))).extended_ready(
                beneath(old(self)@.stack, extended_len(has_kwargs)),
                top_tuple(old(self)@.stack, has_kwargs),
                top_kwargs(old(self)@.stack, has_kwargs),
            ),
        ensures
            old(self)@.runs_call_extended(final(self)@, has_kwargs, r),
            final(self)@.leaves(below(old(self)@.stack, extended_len(has_kwargs))),
    {
        let ghost before = self@;
        let ghost rest = below(before.stack, extended_len(has_kwargs));
        proof {
            lemma_extended_owned(before.heap, before.stack, has_kwargs);
        }
        let (callable, args_tuple, kwargs): (Value, Value, Option<Value>) = self.pop_extended(has_kwargs);
        // Unpack and call
        let r: Result<CallResult, RunError> = self.call_function_extended(callable, args_tuple, kwargs);
        proof {
            lemma_settled_spares(
                before.heap.entries,
                self.heap@.entries,
                optional(kwargs).push(args_tuple).push(callable),
                r,
            );
            lemma_extended_rest(before.heap, self.heap@, optional(kwargs), args_tuple, callable, rest);
        }
        r
    }

    /// Executes `CallAttrExtended` opcode.
    ///
    /// Handles method calls with `*args` and/or `**kwargs` unpacking.
    pub fn exec_call_attr_extended(&mut self, name_id: StringId, has_kwargs: bool) -> (r: Result<
        CallResult,
        RunError,
    >)
        requires
            old(self)@.wf(),
            extended_len(has_kwargs) < old(self)@.stack.len(),
            can_unpack(
                old(self)@.heap,
                top_tuple(old(self)@.stack, has_kwargs),
                top_kwargs(old(self)@.stack, has_kwargs),
            ),
            old(self)@.with_stack(below(old(self)@.stack, extended_len(has_kwargs))).attr_extended_ready(
                beneath(old(self)@.stack, extended_len(has_kwargs)),
                name_id,
                top_tuple(old(self)@.stack, has_kwargs),
                top_kwargs(old(self)@.stack, has_kwargs),
            ),
        ensures
            old(self)@.runs_call_attr_extended(final(self)@, name_id, has_kwargs, r),
            final(self)@.leaves(below(old(self)@.stack, extended_len(has_kwargs))),
    {
        let ghost before = self@;
        let ghost rest = below(before.stack, extended_len(has_kwargs));
        proof {
            lemma_extended_owned(before.heap, before.stack, has_kwargs);
        }
        let (obj, args_tuple, kwargs): (Value, Value, Option<Value>) = self.pop_extended(has_kwargs);
        // Unpack and call
        let r: Result<CallResult, RunError> = self.call_attr_extended(obj, name_id, args_tuple, kwargs);
        proof {
            lemma_extended_rest(before.heap, self.heap@, optional(kwargs), args_tuple, obj, rest);
        }
        r
    }
}

// ---------------------------------------------------------------------------
// Evaluation to completion
// ---------------------------------------------------------------------------

/// What a function that has to run to completion needs next.
#[derive(Debug)]
pub enum Evaluation {
    /// The function returned this value.
    Done(Value),
    /// The innermost frame has to be run until it returns.
    Run { stack_depth: usize },
    /// Another part of the interpreter has to do the work.
    Native(NativeCall),
}

/// Why the run loop stopped.
#[derive(Debug)]
pub enum FrameExit {
    /// The frame returned a value.
    Return(Value),
    /// Futures have to be resolved.
    ResolveFutures,
    /// The host has to call a function.
    ExternalCall,
    /// The host has to perform an OS operation.
    OsCall,
    /// The host has to call a method.
    MethodCall,
    /// The host has to look up a name.
    NameLookup,
}

/// A failed evaluation.
#[derive(Debug)]
pub struct Abandoned {
    /// How many frames of the evaluation have to be popped.
    pub frames: usize,
    pub error: RunError,
}

/// The error of an evaluation that would have to be suspended.
pub open spec fn unsupported(ctx: Seq<char>) -> ErrorView {
    ErrorView::Internal(ctx + ": external functions are not yet supported in this context"@)
}

/// Makes the error of an evaluation that would have to be suspended.
fn unsupported_error(ctx: &str) -> (r: RunError)
    ensures
        r@ == unsupported(ctx@),
{
    RunError::internal(join2(ctx, ": external functions are not yet supported in this context").as_str())
}

impl<T: ResourceTracker> VmModel<T> {
    /// Is `r` what the outcome of a call makes of an evaluation, and `after` the machine?
    pub open spec fn evaluates(
        self,
        after: VmModel<T>,
        ctx: Seq<char>,
        outcome: Result<CallResult, RunError>,
        r: Result<Evaluation, RunError>,
    ) -> bool {
        match outcome {
            Err(e) => r == Err::<Evaluation, RunError>(e) && after == self,
            Ok(CallResult::Push(v)) => r == Ok::<Evaluation, RunError>(Evaluation::Done(v)) && after == self,
            Ok(CallResult::FramePushed) => {
                &&& r matches Ok(Evaluation::Run { stack_depth }) && stack_depth == self.frames.len()
                &&& after == (VmModel {
                    frames: self.frames.update(
                        self.frames.len() - 1,
                        (FrameView { should_return: true, ..self.frames.last() }),
                    ),
                    ..self
                })
            },
            Ok(CallResult::Native(call)) => r == Ok::<Evaluation, RunError>(Evaluation::Native(call)) && after == self,
            Ok(result) => {
                &&& r matches Err(e) && e@ == unsupported(ctx)
                &&& after == self.with_heap(after.heap)
                &&& self.heap.gave_up(after.heap, refs(result.values()))
            },
        }
    }
}

/// A call that pushes a frame leaves a frame.
proof fn lemma_frame_pushed<T: ResourceTracker>(
    before: VmModel<T>,
    after: VmModel<T>,
    callable: Value,
    args: ArgValues,
)
    requires
        before.calls(after, callable, args, Ok(CallResult::FramePushed)),
    ensures
        after.frames.len() > 0,
{
}

/// What a call hands out is held.
proof fn lemma_result_held<T: ResourceTracker>(
    before: HeapModel<T>,
    called: HeapModel<T>,
    given: Seq<Value>,
    result: CallResult,
)
    requires
        owns(before.entries, given),
        !(result is FramePushed),
        settles_up(before.entries, called.entries, given, Ok(result)),
    ensures
        owns(called.entries, result.values()),
{
    assert forall|x: HeapId| #[trigger] outside(called.entries, x) >= tally(refs(result.values()), x) + kept(x) by {
        assert(outside(before.entries, x) >= tally(refs(given), x) + kept(x));
    }
}

/// Giving up what a call hands out leaves what there was without the arguments.
proof fn lemma_held_given_back<T: ResourceTracker>(
    before: Entries,
    called: HeapModel<T>,
    after: HeapModel<T>,
    given: Seq<Value>,
    held: Seq<Value>,
    outcome: Result<CallResult, RunError>,
)
    requires
        outcome matches Ok(result) && !(result is FramePushed) && result.values() == held,
        settles_up(before, called.entries, given, outcome),
        called.gave_up(after, refs(held)),
    ensures
        gives_back(before, after.entries, given),
        spares_others(before, after.entries, given),
{
    assert forall|x: HeapId| #[trigger] outside(after.entries, x) == outside(before, x) - holds(given, x) by {
        assert(outside(called.entries, x) == outside(before, x) - holds(given, x) + holds(held, x));
        assert(outside(after.entries, x) == outside(called.entries, x) - tally(refs(held), x));
    }
}

impl<T: ResourceTracker> VM<T> {
    /// Evaluates a function in a position that doesn't yet support suspending.
    ///
    /// Calls the function and, if it's a user-defined function that pushes a frame,
    /// marks that frame: it has to be run until it returns, and
    /// [`VM::finish_evaluation`] takes what comes of it.
    ///
    /// Returns an error for external/OS functions since those require the host to
    /// execute them and resume, which this synchronous context cannot support.
    pub fn evaluate_function(&mut self, ctx: &str, callable: &Value, args: ArgValues) -> (r: Result<
        Evaluation,
        RunError,
    >)
        requires
            old(self)@.heap.wf(),
            owns(old(self)@.heap.entries, args.values()),
            old(self)@.call_ready(*callable, args),
        ensures
            exists|called: VmModel<T>, outcome: Result<CallResult, RunError>| #[trigger]
                old(self)@.calls(called, *callable, args, outcome) && called.evaluates(
                    final(self)@,
                    ctx@,
                    outcome,
                    r,
                ),
            final(self)@.heap.wf(),
            final(self)@.stack == old(self)@.stack,
            sound(final(self)@.heap.entries),
            spares_others(old(self)@.heap.entries, final(self)@.heap.entries, args.values()),
            r is Err ==> gives_back(old(self)@.heap.entries, final(self)@.heap.entries, args.values()),
    {
        let ghost before = self@;
        let ghost all = args.values();
        let outcome: Result<CallResult, RunError> = self.call_function(callable, args);
        let ghost called = self@;
        let ghost was = outcome;
        proof {
            assert(before.calls(called, *callable, args, was));
            lemma_settled_spares(before.heap.entries, called.heap.entries, all, was);
            if let Ok(result) = was {
                if !(result is FramePushed) {
                    lemma_result_held(before.heap, called.heap, all, result);
                }
            }
        }
        match outcome {
            Err(e) => Err(e),
            Ok(CallResult::Push(v)) => Ok(Evaluation::Done(v)),
            Ok(CallResult::FramePushed) => {
                // A new frame was pushed for a defined function call - it has to be run
                // to completion.
                let stack_depth: usize = self.frames.len();
                proof {
                    lemma_frame_pushed(before, called, *callable, args);
                }
                // Mark the frame as an exit point from the run loop
                self.mark_exit();
                Ok(Evaluation::Run { stack_depth })
            },
            Ok(CallResult::Native(call)) => Ok(Evaluation::Native(call)),
            // External calls are not supported in this context since the caller doesn't support suspending
            Ok(CallResult::External(_, passed)) | Ok(CallResult::OsCall(_, passed)) | Ok(
                CallResult::MethodCall(_, passed),
            ) => {
                passed.drop_with_heap(&mut self.heap);
                proof {
                    lemma_held_given_back(before.heap.entries, called.heap, self.heap@, all, passed.values(), was);
                }
                Err(unsupported_error(ctx))
            },
            Ok(CallResult::AwaitValue(v)) => {
                self.heap.discard(v);
                proof {
                    lemma_held_given_back(before.heap.entries, called.heap, self.heap@, all, seq![v], was);
                }
                Err(unsupported_error(ctx))
            },
        }
    }

    /// Takes what came of running the frame of an evaluation.
    pub fn finish_evaluation(&self, ctx: &str, stack_depth: usize, exit: FrameExit) -> (r: Result<Value, Abandoned>)
        ensures
            match exit {
                FrameExit::Return(v) => r == Ok::<Value, Abandoned>(v),
                _ => {
                    &&& r matches Err(abandoned)
                    &&& abandoned.error@ == unsupported(ctx@)
                    &&& abandoned.frames == (if self@.frames.len() > stack_depth {
                        self@.frames.len() - stack_depth
                    } else {
                        0
                    })
                },
            },
    {
        match exit {
            FrameExit::Return(v) => Ok(v),
            _ => {
                // Pop frames off the stack from this failed evaluation
                let frames: usize = if self.frames.len() > stack_depth {
                    self.frames.len() - stack_depth
                } else {
                    0
                };
                Err(Abandoned { frames, error: unsupported_error(ctx) })
            },
        }
    }
}

} // verus!
