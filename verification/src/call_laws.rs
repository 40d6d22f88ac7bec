//! Which arguments a call gets from the stack, and where a function finds them.

use crate::args::{ArgValues, KwargsValues, arg_values};
use crate::asyncio::Coroutine;
use crate::binding::{bound_values, keys_from, settles_call, used_defaults};
use crate::binding_laws::{arguments_are_bound_where_they_fit, filled, fits};
use crate::builtins::Builtins;
use crate::exceptions::{RunError, type_error_view};
use crate::function::FunctionView;
use crate::growth::lemma_bumped_grown;
use crate::hash::name_text;
use crate::heap::{HeapModel, allocation_balances, deeper};
use crate::heap_data::{CellValue, HeapData};
use crate::heap_model::{Entries, data_at, live, outside};
use crate::heap_ops::{bumped, lemma_bumped_nothing};
use crate::intern::{FunctionId, StringId, id_text};
use crate::payload_laws::{key_column, lemma_flat_columns, value_column, values_hold_their_references};
use crate::product_laws::lemma_bumped_wf;
use crate::resource::{ResourceError, ResourceTracker};
use crate::signature::{function_binding, id_texts};
use crate::types::mappings::{DictEntry, flat, lemma_flat_len};
use crate::types::py_trait::{AttrCallResult, NativeCall};
use crate::value::{EitherStr, HeapId, Value, holds, holds1, lemma_holds_concat, lemma_holds_one, refs};
use crate::vm::{FrameView, VmModel};
use crate::vm::call::{CallResult, is_from, lemma_counted_ready};
use crate::vm::call_args::{Wrapping, given_kwargs, passes, tuple_args, unpacked, unpacked_form, zipped};
use crate::vm::cells::{made_cells, padded, ref_values};
use crate::vm::frames::{calls_def, enters, is_coroutine_of, sleeps, suspends};
use crate::vm::opcodes::Evaluation;
use vstd::prelude::*;

verus! {

/// Positional argument number `i`.
pub open spec fn passed(args: ArgValues, i: int) -> Option<Value> {
    match args {
        ArgValues::One(a) if i == 0 => Some(a),
        ArgValues::Two(a, _) if i == 0 => Some(a),
        ArgValues::Two(_, b) if i == 1 => Some(b),
        ArgValues::ArgsKargs { args: list, .. } if 0 <= i < list@.len() => Some(list@[i]),
        _ => None,
    }
}

/// Keyword number `i` and its value.
pub open spec fn keyword(kwargs: KwargsValues, i: int) -> Option<(Value, Value)> {
    match kwargs {
        KwargsValues::Inline(pairs) if 0 <= i < pairs@.len() => Some((Value::InternString(pairs@[i].0), pairs@[i].1)),
        KwargsValues::Dict(d) if 0 <= i < d.entries@.len() => Some((d.entries@[i].key, d.entries@[i].value)),
        _ => None,
    }
}

/// Keyword argument number `i`, its name and its value.
pub open spec fn passed_by_name(args: ArgValues, i: int) -> Option<(Value, Value)> {
    match args {
        ArgValues::Kwargs(kwargs) => keyword(kwargs, i),
        ArgValues::ArgsKargs { kwargs, .. } => keyword(kwargs, i),
        _ => None,
    }
}

/// Arguments in whatever form list what was passed, in order, and nothing else.
pub proof fn arguments_list_what_was_passed(args: ArgValues, i: int)
    ensures
        passed(args, i) == if 0 <= i < args.positional().len() {
            Some(args.positional()[i])
        } else {
            None
        },
        passed_by_name(args, i) == if 0 <= i < args.keywords().len() {
            Some((args.keywords()[i].key, args.keywords()[i].value))
        } else {
            None
        },
        args.values().len() == args.positional().len() + 2 * args.keywords().len(),
{
    lemma_flat_len(args.keywords());
}

/// Are the arguments the `n` values under those of the keywords, and each keyword the name
/// that belongs to its value? The last name is that of the topmost value.
pub open spec fn on_stack(stack: Seq<Value>, n: nat, names: Seq<StringId>, args: ArgValues) -> bool {
    &&& forall|i: int| #[trigger]
        passed(args, i) == if 0 <= i < n {
            Some(stack[stack.len() - names.len() - n + i])
        } else {
            None
        }
    &&& forall|i: int| #[trigger]
        passed_by_name(args, i) == if 0 <= i < names.len() {
            Some((Value::InternString(names[i]), stack[stack.len() - names.len() + i]))
        } else {
            None
        }
}

/// A value that is dropped is one reference less where it is one. The rest of the machine
/// stays as it is.
pub proof fn dropping_gives_up_one_reference<T: ResourceTracker>(
    before: VmModel<T>,
    after: VmModel<T>,
    v: Value,
    x: HeapId,
)
    requires
        before.drops(after, v),
    ensures
        outside(after.heap.entries, x) == outside(before.heap.entries, x) - (if v == Value::Ref(x) {
            1int
        } else {
            0
        }),
        after.stack == before.stack,
        after.frames == before.frames,
        after.namespaces == before.namespaces,
{
    lemma_holds_one(v, x);
}

/// A value that is called once is called and then dropped.
pub proof fn calls_drop_what_they_called<T: ResourceTracker>(
    before: VmModel<T>,
    after: VmModel<T>,
    callable: Value,
    args: ArgValues,
    r: Result<CallResult, RunError>,
)
    requires
        before.calls_once(after, callable, args, r),
    ensures
        exists|called: VmModel<T>| before.calls(called, callable, args, r) && #[trigger] called.drops(after, callable),
{
}

/// A call takes its arguments off the stack, the first one deepest, and then what it calls,
/// which it drops when it has called it.
pub proof fn calls_take_their_arguments_off_the_stack<T: ResourceTracker>(
    before: VmModel<T>,
    after: VmModel<T>,
    n: nat,
    r: Result<CallResult, RunError>,
)
    requires
        n < before.stack.len(),
        before.runs_call(after, n, r),
    ensures
        exists|args: ArgValues, called: VmModel<T>|
            {
                &&& #[trigger] on_stack(before.stack, n, Seq::empty(), args)
                &&& before.with_stack(before.stack.take(before.stack.len() - n - 1)).calls(
                    called,
                    before.stack[before.stack.len() - n - 1],
                    args,
                    r,
                )
                &&& #[trigger] called.drops(after, before.stack[before.stack.len() - n - 1])
            },
{
    let rest = before.with_stack(before.stack.take(before.stack.len() - n - 1));
    let pos = before.stack.skip(before.stack.len() - n);
    let callable = before.stack[before.stack.len() - n - 1];
    let args = choose|args: ArgValues|
        #[trigger] passes(args, Wrapping::Plain, pos, Seq::empty()) && rest.calls_once(after, callable, args, r);
    lemma_on_stack(before.stack, n, Seq::empty(), args);
    calls_drop_what_they_called(rest, after, callable, args, r);
}

/// A call with keywords takes the values of the keywords off the stack, then the positional
/// arguments, then what it calls. Each name goes with the value at its place.
pub proof fn calls_pair_names_with_values<T: ResourceTracker>(
    before: VmModel<T>,
    after: VmModel<T>,
    n: nat,
    names: Seq<StringId>,
    r: Result<CallResult, RunError>,
)
    requires
        n + names.len() < before.stack.len(),
        before.runs_call_kw(after, n, names, r),
    ensures
        exists|args: ArgValues, called: VmModel<T>|
            {
                &&& #[trigger] on_stack(before.stack, n, names, args)
                &&& before.with_stack(before.stack.take(before.stack.len() - n - names.len() - 1)).calls(
                    called,
                    before.stack[before.stack.len() - n - names.len() - 1],
                    args,
                    r,
                )
                &&& #[trigger] called.drops(after, before.stack[before.stack.len() - n - names.len() - 1])
            },
{
    let len = before.stack.len();
    let k = names.len();
    let rest = before.with_stack(before.stack.take(len - n - k - 1));
    let pos = before.stack.subrange(len - k - n, len - k);
    let kws = zipped(names, before.stack.skip(len - k));
    let callable = before.stack[len - n - k - 1];
    assert(len - (n + k) - 1 == len - n - k - 1);
    let args = choose|args: ArgValues|
        #[trigger] passes(args, Wrapping::Named, pos, kws) && rest.calls_once(after, callable, args, r);
    lemma_on_stack(before.stack, n, names, args);
    calls_drop_what_they_called(rest, after, callable, args, r);
}

/// A call of an attribute takes its arguments off the stack, the first one deepest, and
/// then the object whose attribute it calls.
pub proof fn attribute_calls_take_their_arguments_off_the_stack<T: ResourceTracker>(
    before: VmModel<T>,
    after: VmModel<T>,
    name: StringId,
    n: nat,
    r: Result<CallResult, RunError>,
)
    requires
        n < before.stack.len(),
        before.runs_call_attr(after, name, n, r),
    ensures
        exists|args: ArgValues|
            #[trigger] on_stack(before.stack, n, Seq::empty(), args) && before.with_stack(
                before.stack.take(before.stack.len() - n - 1),
            ).calls_attr(after, before.stack[before.stack.len() - n - 1], name, args, r),
{
    let rest = before.with_stack(before.stack.take(before.stack.len() - n - 1));
    let pos = before.stack.skip(before.stack.len() - n);
    let obj = before.stack[before.stack.len() - n - 1];
    let args = choose|args: ArgValues|
        #[trigger] passes(args, Wrapping::Plain, pos, Seq::empty()) && rest.calls_attr(after, obj, name, args, r);
    lemma_on_stack(before.stack, n, Seq::empty(), args);
}

/// A call of an attribute with keywords takes the values of the keywords off the stack,
/// then the positional arguments, then the object. Each name goes with the value at its
/// place.
pub proof fn attribute_calls_pair_names_with_values<T: ResourceTracker>(
    before: VmModel<T>,
    after: VmModel<T>,
    name: StringId,
    n: nat,
    names: Seq<StringId>,
    r: Result<CallResult, RunError>,
)
    requires
        n + names.len() < before.stack.len(),
        before.runs_call_attr_kw(after, name, n, names, r),
    ensures
        exists|args: ArgValues|
            #[trigger] on_stack(before.stack, n, names, args) && before.with_stack(
                before.stack.take(before.stack.len() - n - names.len() - 1),
            ).calls_attr(after, before.stack[before.stack.len() - n - names.len() - 1], name, args, r),
{
    let len = before.stack.len();
    let k = names.len();
    let rest = before.with_stack(before.stack.take(len - n - k - 1));
    let pos = before.stack.subrange(len - k - n, len - k);
    let kws = zipped(names, before.stack.skip(len - k));
    let obj = before.stack[len - n - k - 1];
    assert(len - (n + k) - 1 == len - n - k - 1);
    let args = choose|args: ArgValues|
        #[trigger] passes(args, Wrapping::Named, pos, kws) && rest.calls_attr(after, obj, name, args, r);
    lemma_on_stack(before.stack, n, names, args);
}

/// A builtin gets the topmost values as its arguments, the first one deepest.
pub proof fn builtins_take_their_arguments_off_the_stack<T: ResourceTracker>(
    before: VmModel<T>,
    after: VmModel<T>,
    builtin: Builtins,
    n: nat,
    r: Result<CallResult, RunError>,
)
    requires
        n <= before.stack.len(),
        before.asks_builtin(after, builtin, n, r),
    ensures
        r matches Ok(CallResult::Native(NativeCall::Builtin(asked, args))) && asked == builtin && on_stack(
            before.stack,
            n,
            Seq::empty(),
            args,
        ),
        after == before.with_stack(before.stack.take(before.stack.len() - n)),
{
    if let Ok(CallResult::Native(NativeCall::Builtin(_, args))) = r {
        lemma_on_stack(before.stack, n, Seq::empty(), args);
    }
}

/// Are the arguments the items of the tuple, in order?
pub open spec fn from_tuple(e: Entries, tuple: HeapId, args: ArgValues) -> bool {
    data_at(e, tuple) matches HeapData::Tuple(t) && forall|i: int| #[trigger]
        passed(args, i) == if 0 <= i < t@.len() {
            Some(t@[i])
        } else {
            None
        }
}

/// Are the keyword arguments the entries of the dictionary, in order, where there is one?
pub open spec fn from_dict(e: Entries, dict: Option<HeapId>, args: ArgValues) -> bool {
    match dict {
        Some(dict) => data_at(e, dict) matches HeapData::Dict(d) && forall|i: int| #[trigger]
            passed_by_name(args, i) == if 0 <= i < d.entries@.len() {
                Some((d.entries@[i].key, d.entries@[i].value))
            } else {
                None
            },
        None => forall|i: int| #[trigger] passed_by_name(args, i) is None,
    }
}

/// Does the stack end in a reference to a tuple, and one to a dictionary if there is one,
/// with something to call underneath?
pub open spec fn ends_in(e: Entries, stack: Seq<Value>, tuple: HeapId, dict: Option<HeapId>) -> bool {
    &&& data_at(e, tuple) is Tuple
    &&& match dict {
        Some(dict) => {
            &&& data_at(e, dict) is Dict
            &&& stack.len() > 2
            &&& stack[stack.len() - 1] == Value::Ref(dict)
            &&& stack[stack.len() - 2] == Value::Ref(tuple)
        },
        None => stack.len() > 1 && stack[stack.len() - 1] == Value::Ref(tuple),
    }
}

/// A reference to the entry, where there is one.
pub open spec fn reference_to(id: Option<HeapId>) -> Option<Value> {
    match id {
        Some(id) => Some(Value::Ref(id)),
        None => None,
    }
}

/// How deep on the stack what is called lies under a tuple and, perhaps, a dictionary.
pub open spec fn depth_under(dict: Option<HeapId>) -> int {
    if dict is Some { 3 } else { 2 }
}

proof fn lemma_from_heap(e: Entries, tuple: HeapId, dict: Option<HeapId>, args: ArgValues)
    requires
        data_at(e, tuple) matches HeapData::Tuple(t) && args.positional() == t@,
        dict matches Some(d) ==> (data_at(e, d) matches HeapData::Dict(d) && args.keywords() == d.entries@),
        dict is None ==> args.keywords().len() == 0,
    ensures
        from_tuple(e, tuple, args),
        from_dict(e, dict, args),
{
    assert forall|i: int| #[trigger]
        passed(args, i) == if 0 <= i < args.positional().len() {
            Some(args.positional()[i])
        } else {
            None
        } by {
        arguments_list_what_was_passed(args, i);
    }
    assert forall|i: int| #[trigger]
        passed_by_name(args, i) == if 0 <= i < args.keywords().len() {
            Some((args.keywords()[i].key, args.keywords()[i].value))
        } else {
            None
        } by {
        arguments_list_what_was_passed(args, i);
    }
}

/// A call that unpacks a tuple and a dictionary gets the items of the tuple and the entries
/// of the dictionary, in order. What it calls lies under them.
pub proof fn unpacking_calls_pass_every_item<T: ResourceTracker>(
    before: VmModel<T>,
    after: VmModel<T>,
    tuple: HeapId,
    dict: Option<HeapId>,
    r: Result<CallResult, RunError>,
)
    requires
        ends_in(before.heap.entries, before.stack, tuple, dict),
        before.runs_call_extended(after, dict is Some, r),
    ensures
        exists|args: ArgValues, h: HeapModel<T>, called: VmModel<T>|
            {
                &&& #[trigger] from_tuple(before.heap.entries, tuple, args)
                &&& from_dict(before.heap.entries, dict, args)
                &&& before.with_heap(h).with_stack(
                    before.stack.take(before.stack.len() - depth_under(dict)),
                ).calls_once(called, before.stack[before.stack.len() - depth_under(dict)], args, r)
                &&& #[trigger] unpacked(before.heap, h, Value::Ref(tuple), reference_to(dict))
                &&& #[trigger] called.drops(after, Value::Ref(tuple))
            },
{
    let len = before.stack.len();
    let kwargs = reference_to(dict);
    let rest = before.with_stack(before.stack.take(len - depth_under(dict)));
    let callable = before.stack[len - depth_under(dict)];
    let pos = tuple_args(rest.heap, Value::Ref(tuple));
    let kws = given_kwargs(rest.heap, kwargs);
    assert(rest.calls_extended(after, callable, Value::Ref(tuple), kwargs, r));
    let (h, called) = choose|h: HeapModel<T>, called: VmModel<T>|
        {
            &&& #[trigger] unpacked(rest.heap, h, Value::Ref(tuple), kwargs)
            &&& rest.with_heap(h).calls_with(called, callable, unpacked_form(kwargs), pos, kws, r)
            &&& #[trigger] called.drops(after, Value::Ref(tuple))
        };
    let args = choose|args: ArgValues|
        #[trigger] passes(args, unpacked_form(kwargs), pos, kws) && rest.with_heap(h).calls_once(
            called,
            callable,
            args,
            r,
        );
    lemma_from_heap(before.heap.entries, tuple, dict, args);
    assert(rest.with_heap(h) == before.with_heap(h).with_stack(rest.stack));
}

/// A call of an attribute that unpacks a tuple and a dictionary gets the items of the tuple
/// and the entries of the dictionary, in order. The object lies under them.
pub proof fn unpacking_attribute_calls_pass_every_item<T: ResourceTracker>(
    before: VmModel<T>,
    after: VmModel<T>,
    name: StringId,
    tuple: HeapId,
    dict: Option<HeapId>,
    r: Result<CallResult, RunError>,
)
    requires
        ends_in(before.heap.entries, before.stack, tuple, dict),
        before.runs_call_attr_extended(after, name, dict is Some, r),
    ensures
        exists|args: ArgValues, h: HeapModel<T>, called: VmModel<T>|
            {
                &&& #[trigger] from_tuple(before.heap.entries, tuple, args)
                &&& from_dict(before.heap.entries, dict, args)
                &&& before.with_heap(h).with_stack(
                    before.stack.take(before.stack.len() - depth_under(dict)),
                ).calls_attr(called, before.stack[before.stack.len() - depth_under(dict)], name, args, r)
                &&& #[trigger] unpacked(before.heap, h, Value::Ref(tuple), reference_to(dict))
                &&& #[trigger] called.drops(after, Value::Ref(tuple))
            },
{
    let len = before.stack.len();
    let kwargs = reference_to(dict);
    let rest = before.with_stack(before.stack.take(len - depth_under(dict)));
    let obj = before.stack[len - depth_under(dict)];
    let pos = tuple_args(rest.heap, Value::Ref(tuple));
    let kws = given_kwargs(rest.heap, kwargs);
    assert(rest.calls_attr_extended(after, obj, name, Value::Ref(tuple), kwargs, r));
    let (h, called) = choose|h: HeapModel<T>, called: VmModel<T>|
        {
            &&& #[trigger] unpacked(rest.heap, h, Value::Ref(tuple), kwargs)
            &&& rest.with_heap(h).calls_attr_with(called, obj, name, unpacked_form(kwargs), pos, kws, r)
            &&& after == called.with_heap(after.heap)
            &&& #[trigger] called.heap.gave_up(after.heap, refs(seq![Value::Ref(tuple)]))
        };
    let args = choose|args: ArgValues|
        #[trigger] passes(args, unpacked_form(kwargs), pos, kws) && rest.with_heap(h).calls_attr(
            called,
            obj,
            name,
            args,
            r,
        );
    lemma_from_heap(before.heap.entries, tuple, dict, args);
    assert(rest.with_heap(h) == before.with_heap(h).with_stack(rest.stack));
    assert(called.drops(after, Value::Ref(tuple)));
}

/// Does a function find its variables at their places? First come the values of the
/// parameters, then the new cells, then the cells that were captured, and the rest is
/// undefined.
pub open spec fn laid_out(
    f: FunctionView,
    values: Seq<Value>,
    made: Seq<HeapId>,
    captured: Seq<HeapId>,
    ns: Seq<Value>,
) -> bool {
    &&& ns.len() == f.namespace_size
    &&& values.len() == f.params.len()
    &&& made.len() == f.cell_var_count
    &&& forall|i: int|
        0 <= i < ns.len() ==> #[trigger] ns[i] == if i < values.len() {
            values[i]
        } else if i < values.len() + made.len() {
            Value::Ref(made[i - values.len()])
        } else if i < values.len() + made.len() + captured.len() {
            Value::Ref(captured[i - values.len() - made.len()])
        } else {
            Value::Undefined
        }
}

/// Does each new cell hold the value of the parameter that it stands for, or nothing where
/// it stands for no parameter?
pub open spec fn cells_filled(e: Entries, f: FunctionView, values: Seq<Value>, made: Seq<HeapId>) -> bool {
    forall|j: int|
        0 <= j < made.len() ==> data_at(e, #[trigger] made[j]) == HeapData::Cell(
            CellValue(
                match f.cell_param_indices[j] {
                    Some(p) => values[p as int],
                    None => Value::Undefined,
                },
            ),
        )
}

proof fn lemma_laid_out(
    f: FunctionView,
    values: Seq<Value>,
    made: Seq<HeapId>,
    captured: Seq<HeapId>,
)
    requires
        values.len() == f.params.len(),
        made.len() == f.cell_var_count,
        values.len() + made.len() + captured.len() <= f.namespace_size,
    ensures
        laid_out(
            f,
            values,
            made,
            captured,
            padded(values + ref_values(made) + ref_values(captured), f.namespace_size as nat),
        ),
{
    let ns = padded(values + ref_values(made) + ref_values(captured), f.namespace_size as nat);
    assert(ns.len() == f.namespace_size);
}

/// A call of a function that is not async pushes a frame for it. Each parameter has the
/// value that belongs to it, cells hold the parameters that they stand for, and captured
/// cells come behind them. The stack and the other frames and namespaces stay as they are.
pub proof fn frames_hold_the_arguments<T: ResourceTracker>(
    before: VmModel<T>,
    after: VmModel<T>,
    id: FunctionId,
    texts: Seq<Seq<char>>,
    captured: Seq<HeapId>,
    defaults: Seq<Value>,
    args: ArgValues,
)
    requires
        before.function_ready(id, captured, defaults, args),
        texts.len() == before.function(id).params.len(),
        forall|i: int|
            0 <= i < texts.len() ==> #[trigger] texts[i] == id_text(
                before.scene().tables.strings,
                before.function(id).params[i],
            ),
        texts.no_duplicates(),
        args.positional().len() + 2 * args.keywords().len() <= usize::MAX,
        calls_def(before, after, id, captured, defaults, args, Ok(CallResult::FramePushed)),
    ensures
        !before.function(id).is_async,
        fits(before.scene(), texts, defaults.len(), args.positional(), args.keywords()),
        after.stack == before.stack,
        after.frames.drop_last() == before.frames,
        after.namespaces.drop_last() == before.namespaces,
        after.frames.len() == before.frames.len() + 1,
        after.namespaces.len() == before.namespaces.len() + 1,
        after.frames.last().function == Some(id),
        after.frames.last().namespace_idx == before.namespaces.len() as usize,
        after.frames.last().stack_base == before.stack.len() as usize,
        after.frames.last().call_position == Some(before.frames.last().position),
        after.frames.last().position == 0,
        !after.frames.last().should_return,
        exists|values: Seq<Value>, made: Seq<HeapId>|
            {
                &&& filled(before.scene(), texts, defaults, args.positional(), args.keywords(), values)
                &&& #[trigger] laid_out(before.function(id), values, made, captured, after.namespaces.last())
                &&& cells_filled(after.heap.entries, before.function(id), values, made)
                &&& after.frames.last().cells == made + captured
            },
{
    let f = before.function(id);
    let s = before.scene();
    assert(id_texts(s.tables, f.params) =~= texts);
    if !f.is_async {
        arguments_are_bound_where_they_fit(
            s,
            id_text(s.tables.strings, f.name.name_id),
            texts,
            defaults,
            args.positional(),
            args.keywords(),
        );
        let slots = function_binding(s, f.name.name_id, f.params, defaults.len(), args.positional(), args.keywords())->Ok_0;
        let r = Ok::<CallResult, RunError>(CallResult::FramePushed);
        assert(enters(before, after, id, captured, defaults, args, slots, r));
        let values = bound_values(args.values(), defaults, slots);
        let (settled, rest, held, made, error) = choose|
            settled: HeapModel<T>,
            rest: HeapModel<T>,
            held: HeapModel<T>,
            made: Seq<HeapId>,
            error: Option<ResourceError>,
        |
            {
                &&& #[trigger] settled.gave_up(rest, refs(defaults))
                &&& #[trigger] made_cells(rest, held, values, f.cell_param_indices, made, error)
                &&& error is None
                &&& bumped(held.entries, after.heap.entries, captured)
                &&& after == (VmModel {
                    heap: held.with_entries(after.heap.entries),
                    namespaces: before.namespaces.push(
                        padded(values + ref_values(made) + ref_values(captured), f.namespace_size as nat),
                    ),
                    frames: before.frames.push(
                        FrameView {
                            function: Some(id),
                            namespace_idx: before.namespaces.len() as usize,
                            cells: made + captured,
                            stack_base: before.stack.len() as usize,
                            call_position: Some(before.frames.last().position),
                            position: 0,
                            should_return: false,
                        },
                    ),
                    ..before
                })
            };
        lemma_laid_out(f, values, made, captured);
        lemma_bumped_grown(held.entries, after.heap.entries, captured);
        assert forall|j: int| 0 <= j < made.len() implies data_at(after.heap.entries, #[trigger] made[j])
            == HeapData::Cell(
            CellValue(
                match f.cell_param_indices[j] {
                    Some(p) => values[p as int],
                    None => Value::Undefined,
                },
            ),
        ) by {
            assert(live(held.entries, made[j]));
        }
        assert(after.namespaces.last() == padded(
            values + ref_values(made) + ref_values(captured),
            f.namespace_size as nat,
        ));
        assert(laid_out(f, values, made, captured, after.namespaces.last()));
        assert(cells_filled(after.heap.entries, f, values, made));
        assert(args.values() == arg_values(args.positional(), args.keywords()));
        assert(filled(s, texts, defaults, args.positional(), args.keywords(), values));
        assert(after.frames.drop_last() =~= before.frames);
        assert(after.namespaces.drop_last() =~= before.namespaces);
    }
}

/// A call of an async function gives a coroutine that holds its arguments: each parameter
/// has the value that belongs to it, cells hold the parameters that they stand for, and
/// captured cells come behind them.
pub proof fn coroutines_hold_the_arguments<T: ResourceTracker>(
    before: VmModel<T>,
    after: VmModel<T>,
    id: FunctionId,
    texts: Seq<Seq<char>>,
    captured: Seq<HeapId>,
    defaults: Seq<Value>,
    args: ArgValues,
    new: HeapId,
)
    requires
        before.function_ready(id, captured, defaults, args),
        texts.len() == before.function(id).params.len(),
        forall|i: int|
            0 <= i < texts.len() ==> #[trigger] texts[i] == id_text(
                before.scene().tables.strings,
                before.function(id).params[i],
            ),
        texts.no_duplicates(),
        args.positional().len() + 2 * args.keywords().len() <= usize::MAX,
        calls_def(before, after, id, captured, defaults, args, Ok(CallResult::Push(Value::Ref(new)))),
    ensures
        before.function(id).is_async,
        fits(before.scene(), texts, defaults.len(), args.positional(), args.keywords()),
        after == before.with_heap(after.heap),
        exists|values: Seq<Value>, made: Seq<HeapId>, c: Coroutine|
            {
                &&& filled(before.scene(), texts, defaults, args.positional(), args.keywords(), values)
                &&& #[trigger] laid_out(before.function(id), values, made, captured, c.namespace@)
                &&& cells_filled(after.heap.entries, before.function(id), values, made)
                &&& data_at(after.heap.entries, new) == HeapData::Coroutine(c)
                &&& c.func_id == id
                &&& c.frame_cells@ == made + captured
            },
{
    let f = before.function(id);
    let s = before.scene();
    assert(id_texts(s.tables, f.params) =~= texts);
    let r = Ok::<CallResult, RunError>(CallResult::Push(Value::Ref(new)));
    if f.is_async {
        arguments_are_bound_where_they_fit(
            s,
            id_text(s.tables.strings, f.name.name_id),
            texts,
            defaults,
            args.positional(),
            args.keywords(),
        );
        let slots = function_binding(s, f.name.name_id, f.params, defaults.len(), args.positional(), args.keywords())->Ok_0;
        assert(suspends(before, after.heap, id, captured, defaults, args, slots, r));
        let values = bound_values(args.values(), defaults, slots);
        let (settled, rest, held, made, error) = choose|
            settled: HeapModel<T>,
            rest: HeapModel<T>,
            held: HeapModel<T>,
            made: Seq<HeapId>,
            error: Option<ResourceError>,
        |
            {
                &&& settles_call(
                    before.heap,
                    settled,
                    used_defaults(defaults, slots),
                    keys_from(args.values(), args.positional().len()),
                )
                &&& #[trigger] settled.gave_up(rest, refs(defaults))
                &&& #[trigger] made_cells(rest, held, values, f.cell_param_indices, made, error)
                &&& error is None
                &&& sleeps(held, after.heap, f, id, values, made, captured, r)
            };
        let (counted, c) = choose|counted: HeapModel<T>, c: Coroutine|
            {
                &&& #[trigger] bumped(held.entries, counted.entries, made + captured)
                &&& counted == held.with_entries(counted.entries)
                &&& #[trigger] is_coroutine_of(c, f, id, values, made, captured)
                &&& counted.allocates(after.heap, HeapData::Coroutine(c), Ok(new))
            };
        lemma_laid_out(f, values, made, captured);
        lemma_bumped_grown(held.entries, counted.entries, made + captured);
        lemma_bumped_wf(held, counted, made + captured);
        allocation_balances(counted, HeapData::Coroutine(c), after.heap.tracker);
        assert forall|j: int| 0 <= j < made.len() implies data_at(after.heap.entries, #[trigger] made[j])
            == HeapData::Cell(
            CellValue(
                match f.cell_param_indices[j] {
                    Some(p) => values[p as int],
                    None => Value::Undefined,
                },
            ),
        ) by {
            assert(live(held.entries, made[j]));
            assert(live(counted.entries, made[j]));
            assert(made[j] != new);
        }
        assert(laid_out(f, values, made, captured, c.namespace@));
    }
}

/// What a module's function or an attribute answers is what the machine does next: values
/// are pushed, and calls are passed on with their arguments.
pub proof fn answers_are_passed_on(outcome: Result<AttrCallResult, RunError>, r: Result<CallResult, RunError>)
    requires
        is_from(outcome, r),
    ensures
        match r {
            Err(e) => outcome == Err::<AttrCallResult, RunError>(e),
            Ok(CallResult::Push(v)) => outcome == Ok::<AttrCallResult, RunError>(AttrCallResult::Value(v)),
            Ok(CallResult::FramePushed) => false,
            Ok(CallResult::External(name, args)) => outcome matches Ok(AttrCallResult::ExternalCall(id, asked)) && name
                == EitherStr::Interned(id) && asked == args,
            Ok(CallResult::OsCall(func, args)) => outcome == Ok::<AttrCallResult, RunError>(
                AttrCallResult::OsCall(func, args),
            ),
            Ok(CallResult::MethodCall(name, args)) => outcome == Ok::<AttrCallResult, RunError>(
                AttrCallResult::MethodCall(name, args),
            ),
            Ok(CallResult::AwaitValue(v)) => outcome == Ok::<AttrCallResult, RunError>(AttrCallResult::AwaitValue(v)),
            Ok(CallResult::Native(call)) => outcome == Ok::<AttrCallResult, RunError>(AttrCallResult::Native(call)),
        },
{
}

/// Does the pushed frame run the function with its arguments, its defaults and the cells
/// that it captured?
pub open spec fn runs<T: ResourceTracker>(
    before: VmModel<T>,
    after: VmModel<T>,
    id: FunctionId,
    texts: Seq<Seq<char>>,
    captured: Seq<HeapId>,
    defaults: Seq<Value>,
    args: ArgValues,
) -> bool {
    &&& after.frames.len() == before.frames.len() + 1
    &&& after.frames.last().function == Some(id)
    &&& exists|h: HeapModel<T>, values: Seq<Value>, made: Seq<HeapId>|
        {
            &&& #[trigger] bumped(before.heap.entries, h.entries, refs(defaults) + captured)
            &&& filled(before.with_heap(h).scene(), texts, defaults, args.positional(), args.keywords(), values)
            &&& #[trigger] laid_out(before.function(id), values, made, captured, after.namespaces.last())
            &&& after.frames.last().cells == made + captured
        }
}

/// Are these the names of the function's parameters?
pub open spec fn parameter_names<T: ResourceTracker>(m: VmModel<T>, id: FunctionId, texts: Seq<Seq<char>>) -> bool {
    &&& texts.len() == m.function(id).params.len()
    &&& forall|i: int|
        0 <= i < texts.len() ==> #[trigger] texts[i] == id_text(m.scene().tables.strings, m.function(id).params[i])
    &&& texts.no_duplicates()
}

proof fn lemma_closure_runs<T: ResourceTracker>(
    before: VmModel<T>,
    after: VmModel<T>,
    id: FunctionId,
    texts: Seq<Seq<char>>,
    captured: Seq<HeapId>,
    defaults: Seq<Value>,
    args: ArgValues,
)
    requires
        before.heap.wf(),
        before.closure_ready(id, captured, defaults, args),
        parameter_names(before, id, texts),
        args.positional().len() + 2 * args.keywords().len() <= usize::MAX,
        before.calls_closure(after, id, captured, defaults, args, Ok(CallResult::FramePushed)),
    ensures
        runs(before, after, id, texts, captured, defaults, args),
{
    let counted = choose|counted: HeapModel<T>|
        {
            &&& #[trigger] bumped(before.heap.entries, counted.entries, refs(defaults) + captured)
            &&& counted == before.heap.with_entries(counted.entries)
            &&& calls_def(
                before.with_heap(counted),
                after,
                id,
                captured,
                defaults,
                args,
                Ok(CallResult::FramePushed),
            )
        };
    lemma_counted_ready(before, counted, id, captured, defaults, args);
    frames_hold_the_arguments(before.with_heap(counted), after, id, texts, captured, defaults, args);
}

/// A value that is called so that a frame is pushed is a function of the program. The frame
/// runs it: a closure with the cells and the defaults that it holds, and a function with
/// defaults with these.
pub proof fn calls_run_the_function_that_is_called<T: ResourceTracker>(
    before: VmModel<T>,
    after: VmModel<T>,
    callable: Value,
    texts: Seq<Seq<char>>,
    args: ArgValues,
)
    requires
        before.heap.wf(),
        before.call_ready(callable, args),
        args.positional().len() + 2 * args.keywords().len() <= usize::MAX,
        match callable {
            Value::DefFunction(f) => parameter_names(before, f, texts),
            Value::Ref(id) => match data_at(before.heap.entries, id) {
                HeapData::Closure(c) => parameter_names(before, c.func_id, texts),
                HeapData::FunctionDefaults(c) => parameter_names(before, c.func_id, texts),
                _ => true,
            },
            _ => true,
        },
        before.calls(after, callable, args, Ok(CallResult::FramePushed)),
    ensures
        match callable {
            Value::DefFunction(f) => runs(before, after, f, texts, Seq::empty(), Seq::empty(), args),
            Value::Ref(id) => match data_at(before.heap.entries, id) {
                HeapData::Closure(c) => runs(before, after, c.func_id, texts, c.cells@, c.defaults@, args),
                HeapData::FunctionDefaults(c) => runs(
                    before,
                    after,
                    c.func_id,
                    texts,
                    Seq::empty(),
                    c.defaults@,
                    args,
                ),
                _ => false,
            },
            _ => false,
        },
{
    match callable {
        Value::DefFunction(f) => {
            let none = Seq::<Value>::empty();
            frames_hold_the_arguments(before, after, f, texts, Seq::empty(), none, args);
            assert(refs(none) + Seq::<HeapId>::empty() =~= Seq::<HeapId>::empty());
            lemma_bumped_nothing(before.heap.entries);
            assert(before.with_heap(before.heap) == before);
            assert(bumped(before.heap.entries, before.heap.entries, refs(none) + Seq::<HeapId>::empty()));
        },
        Value::Ref(id) => match data_at(before.heap.entries, id) {
            HeapData::Closure(c) => lemma_closure_runs(before, after, c.func_id, texts, c.cells@, c.defaults@, args),
            HeapData::FunctionDefaults(c) => lemma_closure_runs(
                before,
                after,
                c.func_id,
                texts,
                Seq::empty(),
                c.defaults@,
                args,
            ),
            _ => {},
        },
        Value::ModuleFunction(mf) => {
            let outcome = choose|outcome: Result<AttrCallResult, RunError>|
                #[trigger] mf.calls(before.scene(), before.heap, after.heap, args, outcome) && is_from(
                    outcome,
                    Ok(CallResult::FramePushed),
                );
            answers_are_passed_on(outcome, Ok(CallResult::FramePushed));
        },
        _ => {},
    }
}

/// The host and other parts of the interpreter are asked for just what was called, with the
/// arguments as they are. Functions of modules and named tuple types are called themselves.
/// What cannot be called is refused for its type.
pub proof fn other_calls_are_passed_on<T: ResourceTracker>(
    before: VmModel<T>,
    after: VmModel<T>,
    callable: Value,
    args: ArgValues,
    r: Result<CallResult, RunError>,
)
    requires
        before.calls(after, callable, args, r),
    ensures
        callable matches Value::Builtin(b) ==> (r matches Ok(CallResult::Native(NativeCall::Builtin(asked, given)))
            && asked == b && given == args && after == before),
        callable matches Value::ExtFunction(name) ==> (r matches Ok(CallResult::External(asked, given)) && asked
            == EitherStr::Interned(name) && given == args && after == before),
        callable matches Value::Ref(id) ==> (data_at(before.heap.entries, id) matches HeapData::ExtFunction(name) ==> (
        r matches Ok(CallResult::External(asked, given)) && name_text(before.scene().tables, asked) == name@ && given
            == args && after == before)),
        callable matches Value::ModuleFunction(mf) ==> after == before.with_heap(after.heap) && exists|
            outcome: Result<AttrCallResult, RunError>,
        | #[trigger] mf.calls(before.scene(), before.heap, after.heap, args, outcome) && is_from(outcome, r),
        callable matches Value::Ref(id) ==> (data_at(before.heap.entries, id) matches HeapData::NamedTupleFactory(f)
            ==> after == before.with_heap(after.heap) && match r {
            Ok(CallResult::Push(v)) => f.constructs(before.scene(), before.heap, after.heap, args, Ok(v)),
            Ok(_) => false,
            Err(e) => f.constructs(before.scene(), before.heap, after.heap, args, Err(e)),
        }),
        callable matches Value::Ref(id) ==> ({
            let data = data_at(before.heap.entries, id);
            data is NamedTupleFactory || data is Closure || data is FunctionDefaults || data is ExtFunction || (
            r matches Err(e) && e@ == type_error_view("object is not callable"@))
        }),
        match callable {
            Value::Builtin(_)
            | Value::ExtFunction(_)
            | Value::DefFunction(_)
            | Value::ModuleFunction(_)
            | Value::Ref(_) => true,
            _ => r matches Err(e) && e@ == type_error_view(
                "'"@ + before.scene().type_of(callable).name() + "' object is not callable"@,
            ),
        },
{
}

/// An evaluation is done where the call gave a value, and asks for the new frame to be run
/// where one was pushed. The run ends when that frame returns. Calls of the host cannot be
/// waited for.
pub proof fn evaluations_end_as_the_call_does<T: ResourceTracker>(
    called: VmModel<T>,
    after: VmModel<T>,
    ctx: Seq<char>,
    outcome: Result<CallResult, RunError>,
    r: Result<Evaluation, RunError>,
)
    requires
        called.frames.len() > 0,
        called.evaluates(after, ctx, outcome, r),
    ensures
        match outcome {
            Err(e) => r matches Err(f) && f == e && after == called,
            Ok(CallResult::Push(v)) => r matches Ok(Evaluation::Done(w)) && w == v && after == called,
            Ok(CallResult::FramePushed) => {
                &&& r matches Ok(Evaluation::Run { stack_depth }) && stack_depth == called.frames.len()
                &&& after.frames.len() == called.frames.len()
                &&& after.frames.drop_last() == called.frames.drop_last()
                &&& after.frames.last().should_return
                &&& after.frames.last().function == called.frames.last().function
                &&& after.frames.last().namespace_idx == called.frames.last().namespace_idx
                &&& after.frames.last().cells == called.frames.last().cells
                &&& after.frames.last().stack_base == called.frames.last().stack_base
                &&& after.heap == called.heap
                &&& after.stack == called.stack
                &&& after.namespaces == called.namespaces
            },
            Ok(CallResult::Native(call)) => r matches Ok(Evaluation::Native(asked)) && asked == call && after == called,
            Ok(_) => r is Err && after.stack == called.stack && after.frames == called.frames,
        },
{
    if let Ok(CallResult::FramePushed) = outcome {
        assert(after.frames.drop_last() =~= called.frames.drop_last());
    }
}

/// What a result holds is the value that it gives, or the arguments that it passes on, and
/// the receiver with them.
pub proof fn results_hold_what_they_pass_on(r: CallResult, x: HeapId)
    ensures
        holds(r.values(), x) == match r {
            CallResult::Push(v) => holds1(v, x),
            CallResult::AwaitValue(v) => holds1(v, x),
            CallResult::FramePushed => 0,
            CallResult::External(_, args) => given(args, x),
            CallResult::OsCall(_, args) => given(args, x),
            CallResult::MethodCall(_, args) => given(args, x),
            CallResult::Native(NativeCall::Builtin(_, args)) => given(args, x),
            CallResult::Native(NativeCall::Asyncio(_, args)) => given(args, x),
            CallResult::Native(NativeCall::Method { receiver, args, .. }) => holds1(receiver, x) + given(args, x),
            CallResult::Native(NativeCall::Regex(_)) => 0,
        },
{
    match r {
        CallResult::Push(v) => lemma_holds_one(v, x),
        CallResult::AwaitValue(v) => lemma_holds_one(v, x),
        CallResult::Native(NativeCall::Method { receiver, args, .. }) => {
            lemma_holds_one(receiver, x);
            lemma_holds_concat(seq![receiver], args.values(), x);
        },
        _ => {},
    }
    match r {
        CallResult::External(_, args) => lemma_given(args, x),
        CallResult::OsCall(_, args) => lemma_given(args, x),
        CallResult::MethodCall(_, args) => lemma_given(args, x),
        CallResult::Native(NativeCall::Builtin(_, args)) => lemma_given(args, x),
        CallResult::Native(NativeCall::Asyncio(_, args)) => lemma_given(args, x),
        CallResult::Native(NativeCall::Method { args, .. }) => lemma_given(args, x),
        _ => {
            assert(refs(Seq::<Value>::empty()) =~= Seq::<HeapId>::empty());
        },
    }
}

proof fn lemma_given(args: ArgValues, x: HeapId)
    ensures
        holds(args.values(), x) == given(args, x),
{
    values_hold_their_references(args.positional(), x);
    lemma_flat_columns(args.keywords(), x);
    lemma_holds_concat(args.positional(), flat(args.keywords()), x);
}

/// How many of the positional and keyword arguments, with their names, are references to
/// the entry.
pub open spec fn given(args: ArgValues, x: HeapId) -> nat {
    args.positional().to_multiset().count(Value::Ref(x)) + key_column(args.keywords()).to_multiset().count(
        Value::Ref(x),
    ) + value_column(args.keywords()).to_multiset().count(Value::Ref(x))
}

/// A call that pushes a frame goes one level deeper, where the tracker lets it. Where it does
/// not, the call is refused with its reason. A call that fails leaves the depth, the frames,
/// the variables and the stack as they are.
pub proof fn calls_nest_one_level<T: ResourceTracker>(
    before: VmModel<T>,
    after: VmModel<T>,
    id: FunctionId,
    captured: Seq<HeapId>,
    defaults: Seq<Value>,
    args: ArgValues,
    r: Result<CallResult, RunError>,
)
    requires
        !before.function(id).is_async,
        calls_def(before, after, id, captured, defaults, args, r),
    ensures
        deeper(before.heap.tracker, before.heap.recursion_depth) matches Err(e) ==> r == Err::<CallResult, RunError>(
            RunError::Resource(e),
        ),
        r is Ok ==> r == Ok::<CallResult, RunError>(CallResult::FramePushed) && after.heap.recursion_depth
            == before.heap.recursion_depth + 1,
        r is Err ==> {
            &&& after.heap.recursion_depth == before.heap.recursion_depth
            &&& after.frames == before.frames
            &&& after.namespaces == before.namespaces
            &&& after.stack == before.stack
        },
{
    let f = before.function(id);
    let all = args.values();
    let binding = function_binding(
        before.scene(),
        f.name.name_id,
        f.params,
        defaults.len(),
        args.positional(),
        args.keywords(),
    );
    if deeper(before.heap.tracker, before.heap.recursion_depth) is Ok && binding is Ok {
        let slots = binding->Ok_0;
        let deep = HeapModel { recursion_depth: (before.heap.recursion_depth + 1) as usize, ..before.heap };
        let values = bound_values(all, defaults, slots);
        assert(enters(before, after, id, captured, defaults, args, slots, r));
        let (settled, rest, held, made, error) = choose|
            settled: HeapModel<T>,
            rest: HeapModel<T>,
            held: HeapModel<T>,
            made: Seq<HeapId>,
            error: Option<ResourceError>,
        |
            {
                &&& settles_call(deep, settled, used_defaults(defaults, slots), keys_from(all, args.positional().len()))
                &&& #[trigger] settled.gave_up(rest, refs(defaults))
                &&& #[trigger] made_cells(rest, held, values, f.cell_param_indices, made, error)
                &&& match error {
                    Some(e) => {
                        &&& r == Err::<CallResult, RunError>(RunError::Resource(e))
                        &&& after == before.with_heap(after.heap)
                        &&& (HeapModel { recursion_depth: before.heap.recursion_depth, ..held }).gave_up(
                            after.heap,
                            refs(values + ref_values(made) + ref_values(captured)),
                        )
                    },
                    None => {
                        &&& r == Ok::<CallResult, RunError>(CallResult::FramePushed)
                        &&& after.heap == held.with_entries(after.heap.entries)
                    },
                }
            };
        let counted = choose|counted: HeapModel<T>|
            {
                &&& counted == deep.with_entries(counted.entries)
                &&& #[trigger] counted.gave_up(settled, refs(keys_from(all, args.positional().len())))
            };
        assert(settled.recursion_depth == deep.recursion_depth);
        assert(rest.recursion_depth == settled.recursion_depth);
        assert(held.recursion_depth == rest.recursion_depth);
    }
}

/// Arguments have the smallest form that they fit in.
pub proof fn arguments_have_the_smallest_form(args: ArgValues, pos: Seq<Value>, kws: Seq<DictEntry>)
    ensures
        passes(args, Wrapping::Plain, pos, kws) ==> kws.len() == 0 && match args {
            ArgValues::Empty => pos.len() == 0,
            ArgValues::One(_) => pos.len() == 1,
            ArgValues::Two(..) => pos.len() == 2,
            ArgValues::ArgsKargs { kwargs, .. } => pos.len() > 2 && kwargs is Empty,
            ArgValues::Kwargs(_) => false,
        },
        passes(args, Wrapping::Named, pos, kws) ==> match args {
            ArgValues::Empty => pos.len() == 0 && kws.len() == 0,
            ArgValues::Kwargs(kwargs) => pos.len() == 0 && kws.len() > 0 && kwargs is Inline,
            ArgValues::ArgsKargs { kwargs, .. } => pos.len() > 0 && kwargs is Inline,
            _ => false,
        },
        passes(args, Wrapping::Mapping, pos, kws) ==> match args {
            ArgValues::Empty => pos.len() == 0 && kws.len() == 0,
            ArgValues::Kwargs(kwargs) => pos.len() == 0 && kws.len() > 0 && kwargs is Dict,
            ArgValues::ArgsKargs { kwargs, .. } => pos.len() > 0 && (kwargs is Dict <==> kws.len() > 0),
            _ => false,
        },
{
}

proof fn lemma_on_stack(stack: Seq<Value>, n: nat, names: Seq<StringId>, args: ArgValues)
    requires
        n + names.len() <= stack.len(),
        args.positional() =~= stack.subrange(stack.len() - names.len() - n, stack.len() - names.len()),
        args.keywords() =~= zipped(names, stack.skip(stack.len() - names.len())),
    ensures
        on_stack(stack, n, names, args),
{
    assert forall|i: int| #[trigger]
        passed(args, i) == if 0 <= i < n {
            Some(stack[stack.len() - names.len() - n + i])
        } else {
            None
        } by {
        arguments_list_what_was_passed(args, i);
    }
    assert forall|i: int| #[trigger]
        passed_by_name(args, i) == if 0 <= i < names.len() {
            Some((Value::InternString(names[i]), stack[stack.len() - names.len() + i]))
        } else {
            None
        } by {
        arguments_list_what_was_passed(args, i);
    }
}

} // verus!
