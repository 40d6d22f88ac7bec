//! Setting up the frames of function calls.

use crate::args::{ArgValues, gives_back, lemma_owns_part, owns, spares_others};
use crate::equality::scene;
use crate::asyncio::Coroutine;
use crate::binding::{bound_values, keys_from, legible_keys, settles_call, used_defaults};
use crate::exceptions::RunError;
use crate::function::{Function, FunctionView, copy_vec, function_views};
use crate::growth::{lemma_bumped_room, lemma_gave_up_room, lemma_less_room};
use crate::heap::{Heap, HeapModel, allocation_balances, deeper};
use crate::heap_data::{HeapData, child_ids};
use crate::heap_model::{Entries, kept, live, outside, sound};
use crate::heap_ops::{
    all_live, bumped, lemma_bumped, lemma_gave_up_at_depth, lemma_model_gave_up_trans, lemma_refs_len,
};
use crate::intern::{FunctionId, valid_id};
use crate::resource::{ResourceError, ResourceTracker};
use crate::signature::{function_binding, valid_ids};
use crate::value::{
    HeapId, Value, holds, lemma_holds_concat, lemma_holds_ge, lemma_holds_one, lemma_holds_push, lemma_refs_concat,
    lemma_tally_concat, lemma_tally_contains, refs, tally,
};
use crate::vm::call::{CallResult, settles_up};
use crate::vm::cells::{count_cells, made_cells, make_cells, pad, padded, push_cells, ref_values};
use crate::vm::{CallFrame, FrameView, VM, VmModel};
use vstd::prelude::*;

verus! {

impl<T: ResourceTracker> VmModel<T> {
    /// The function with the given id.
    pub open spec fn function(self, id: FunctionId) -> FunctionView {
        self.scene().functions[id.0 as int]
    }

    /// Can the function be called with these cells, defaults and arguments?
    pub open spec fn function_ready(
        self,
        id: FunctionId,
        cells: Seq<HeapId>,
        defaults: Seq<Value>,
        args: ArgValues,
    ) -> bool {
        let f = self.function(id);
        &&& id.0 < self.scene().functions.len()
        &&& f.wf()
        &&& f.params.len() + f.cell_var_count + cells.len() <= f.namespace_size
        &&& valid_id(self.interns.tables().strings, f.name.name_id)
        &&& valid_ids(self.interns.tables(), f.params)
        &&& legible_keys(self.scene(), args.values(), args.positional().len())
        &&& self.heap.room(call_room(f, cells.len()))
        &&& self.heap.entries.len() + f.cell_var_count < usize::MAX
        &&& self.frames.len() > 0
    }

}

/// How many references a call may add to an entry.
pub open spec fn call_room(f: FunctionView, cells: nat) -> nat {
    f.params.len() + 3 * f.cell_var_count as nat + cells
}

/// May a call of a function that runs in a frame turn the machine into `after` and give `r`?
///
/// Arguments and defaults are used up, and the frame takes over the references to the
/// cells. Where the recursion is too deep or the arguments do not fit, all of them are
/// given up.
pub open spec fn calls_sync<T: ResourceTracker>(
    before: VmModel<T>,
    after: VmModel<T>,
    id: FunctionId,
    cells: Seq<HeapId>,
    defaults: Seq<Value>,
    args: ArgValues,
    r: Result<CallResult, RunError>,
) -> bool {
    let f = before.function(id);
    let s = before.scene();
    match deeper(before.heap.tracker, before.heap.recursion_depth) {
        Err(e) => {
            &&& r == Err::<CallResult, RunError>(RunError::Resource(e))
            &&& after == before.with_heap(after.heap)
            &&& before.heap.gave_up(after.heap, refs(args.values() + defaults + ref_values(cells)))
        },
        Ok(_) => match function_binding(
            s,
            f.name.name_id,
            f.params,
            defaults.len(),
            args.positional(),
            args.keywords(),
        ) {
            Err(e) => {
                &&& r matches Err(err) && err@ == e
                &&& after == before.with_heap(after.heap)
                &&& before.heap.gave_up(after.heap, refs(args.values() + defaults + ref_values(cells)))
            },
            Ok(slots) => enters(before, after, id, cells, defaults, args, slots, r),
        },
    }
}

/// May setting up a frame for bound arguments turn the machine into `after` and give `r`?
///
/// Where a cell cannot be made, the new namespace and the cells are given up again.
pub open spec fn enters<T: ResourceTracker>(
    before: VmModel<T>,
    after: VmModel<T>,
    id: FunctionId,
    cells: Seq<HeapId>,
    defaults: Seq<Value>,
    args: ArgValues,
    slots: Seq<Option<usize>>,
    r: Result<CallResult, RunError>,
) -> bool {
    let f = before.function(id);
    let all = args.values();
    let values = bound_values(all, defaults, slots);
    let deep = HeapModel { recursion_depth: (before.heap.recursion_depth + 1) as usize, ..before.heap };
    exists|settled: HeapModel<T>, rest: HeapModel<T>, held: HeapModel<T>, made: Seq<HeapId>, error: Option<ResourceError>|
        {
            &&& settles_call(deep, settled, used_defaults(defaults, slots), keys_from(all, args.positional().len()))
            &&& #[trigger] settled.gave_up(rest, refs(defaults))
            &&& #[trigger] made_cells(rest, held, values, f.cell_param_indices, made, error)
            &&& match error {
                Some(e) => {
                    &&& r == Err::<CallResult, RunError>(RunError::Resource(e))
                    &&& after == before.with_heap(after.heap)
                    &&& (HeapModel { recursion_depth: before.heap.recursion_depth, ..held }).gave_up(
                        after.heap,
                        refs(values + ref_values(made) + ref_values(cells)),
                    )
                },
                None => {
                    &&& r == Ok::<CallResult, RunError>(CallResult::FramePushed)
                    &&& bumped(held.entries, after.heap.entries, cells)
                    &&& after == (VmModel {
                        heap: held.with_entries(after.heap.entries),
                        namespaces: before.namespaces.push(
                            padded(values + ref_values(made) + ref_values(cells), f.namespace_size as nat),
                        ),
                        frames: before.frames.push(
                            FrameView {
                                function: Some(id),
                                namespace_idx: before.namespaces.len() as usize,
                                cells: made + cells,
                                stack_base: before.stack.len() as usize,
                                call_position: Some(before.frames.last().position),
                                position: 0,
                                should_return: false,
                            },
                        ),
                        ..before
                    })
                },
            }
        }
}

/// May a call of an async function turn the heap into `after` and give `r`?
///
/// The new coroutine takes over the references to the cells. On an error everything is
/// given up again.
pub open spec fn calls_async<T: ResourceTracker>(
    before: VmModel<T>,
    after: VmModel<T>,
    id: FunctionId,
    cells: Seq<HeapId>,
    defaults: Seq<Value>,
    args: ArgValues,
    r: Result<CallResult, RunError>,
) -> bool {
    let f = before.function(id);
    &&& after == before.with_heap(after.heap)
    &&& match function_binding(
        before.scene(),
        f.name.name_id,
        f.params,
        defaults.len(),
        args.positional(),
        args.keywords(),
    ) {
        Err(e) => {
            &&& r matches Err(err) && err@ == e
            &&& before.heap.gave_up(after.heap, refs(args.values() + defaults + ref_values(cells)))
        },
        Ok(slots) => suspends(before, after.heap, id, cells, defaults, args, slots, r),
    }
}

/// Is this the coroutine of a call?
pub open spec fn is_coroutine_of(
    c: Coroutine,
    f: FunctionView,
    id: FunctionId,
    values: Seq<Value>,
    made: Seq<HeapId>,
    cells: Seq<HeapId>,
) -> bool {
    &&& c.func_id == id
    &&& c.namespace@ == padded(values + ref_values(made) + ref_values(cells), f.namespace_size as nat)
    &&& c.frame_cells@ == made + cells
}

/// May making a coroutine for bound arguments turn the heap into `after` and give `r`?
pub open spec fn suspends<T: ResourceTracker>(
    before: VmModel<T>,
    after: HeapModel<T>,
    id: FunctionId,
    cells: Seq<HeapId>,
    defaults: Seq<Value>,
    args: ArgValues,
    slots: Seq<Option<usize>>,
    r: Result<CallResult, RunError>,
) -> bool {
    let f = before.function(id);
    let all = args.values();
    let values = bound_values(all, defaults, slots);
    exists|settled: HeapModel<T>, rest: HeapModel<T>, held: HeapModel<T>, made: Seq<HeapId>, error: Option<ResourceError>|
        {
            &&& settles_call(
                before.heap,
                settled,
                used_defaults(defaults, slots),
                keys_from(all, args.positional().len()),
            )
            &&& #[trigger] settled.gave_up(rest, refs(defaults))
            &&& #[trigger] made_cells(rest, held, values, f.cell_param_indices, made, error)
            &&& match error {
                Some(e) => {
                    &&& r == Err::<CallResult, RunError>(RunError::Resource(e))
                    &&& held.gave_up(after, refs(values + ref_values(made) + ref_values(cells)))
                },
                None => sleeps(held, after, f, id, values, made, cells, r),
            }
        }
}

/// May allocating the coroutine turn the heap into `after` and give `r`?
///
/// It refers to each of its cells twice, as a cell of its frame and as a variable, and
/// so each is counted twice.
pub open spec fn sleeps<T: ResourceTracker>(
    before: HeapModel<T>,
    after: HeapModel<T>,
    f: FunctionView,
    id: FunctionId,
    values: Seq<Value>,
    made: Seq<HeapId>,
    cells: Seq<HeapId>,
    r: Result<CallResult, RunError>,
) -> bool {
    exists|captured: HeapModel<T>, c: Coroutine|
        {
            &&& #[trigger] bumped(before.entries, captured.entries, made + cells)
            &&& captured == before.with_entries(captured.entries)
            &&& #[trigger] is_coroutine_of(c, f, id, values, made, cells)
            &&& match r {
                Ok(CallResult::Push(Value::Ref(new))) => captured.allocates(after, HeapData::Coroutine(c), Ok(new)),
                Err(RunError::Resource(e)) => exists|refused: HeapModel<T>|
                    {
                        &&& #[trigger] captured.allocates(refused, HeapData::Coroutine(c), Err(e))
                        &&& refused.gave_up(after, refs(c.namespace@ + ref_values(c.frame_cells@)))
                    },
                _ => false,
            }
        }
}

/// What references some ids, taken as values, hold.
pub proof fn lemma_ref_values(ids: Seq<HeapId>)
    ensures
        refs(ref_values(ids)) == ids,
    decreases ids.len(),
{
    if ids.len() > 0 {
        lemma_ref_values(ids.drop_last());
        assert(ref_values(ids).drop_last() =~= ref_values(ids.drop_last()));
        assert(refs(ref_values(ids)) =~= ids);
    } else {
        assert(refs(ref_values(ids)) =~= ids);
    }
}

/// Undefined values hold nothing.
proof fn lemma_padded_holds(ns: Seq<Value>, size: nat, x: HeapId)
    requires
        ns.len() <= size,
    ensures
        holds(padded(ns, size), x) == holds(ns, x),
    decreases size - ns.len(),
{
    if ns.len() == size {
        assert(padded(ns, size) =~= ns);
    } else {
        let longer = ns.push(Value::Undefined);
        lemma_padded_holds(longer, size, x);
        assert(padded(longer, size) =~= padded(ns, size));
        lemma_holds_push(ns, Value::Undefined, x);
    }
}

/// Binding arguments leaves room for the rest of the call.
proof fn lemma_settled_room<T: ResourceTracker>(
    before: HeapModel<T>,
    settled: HeapModel<T>,
    used: Seq<Value>,
    keys: Seq<Value>,
    n: nat,
)
    requires
        settles_call(before, settled, used, keys),
        before.room(used.len() + n),
    ensures
        settled.room(n),
{
    let counted = choose|counted: HeapModel<T>|
        {
            &&& bumped(before.entries, counted.entries, refs(used))
            &&& counted == before.with_entries(counted.entries)
            &&& #[trigger] counted.gave_up(settled, refs(keys))
        };
    lemma_refs_len(used);
    lemma_bumped_room(before, counted, refs(used), used.len() + n);
    lemma_less_room(counted, (used.len() + n - refs(used).len()) as nat, n);
    lemma_gave_up_room(counted, settled, refs(keys), n);
}

/// What arguments, defaults and cells hold together.
pub proof fn lemma_given_holds(args: Seq<Value>, defaults: Seq<Value>, cells: Seq<HeapId>, x: HeapId)
    ensures
        holds(args + defaults + ref_values(cells), x) == holds(args, x) + holds(defaults, x) + tally(cells, x),
        holds(args + defaults, x) == holds(args, x) + holds(defaults, x),
{
    lemma_holds_concat(args + defaults, ref_values(cells), x);
    lemma_holds_concat(args, defaults, x);
    lemma_ref_values(cells);
}

/// A heap that counts references to some ids has live entries there.
proof fn lemma_counted_live(e: Entries, ids: Seq<HeapId>)
    requires
        forall|x: HeapId| #[trigger] outside(e, x) >= tally(ids, x),
    ensures
        all_live(e, ids),
{
    assert forall|i: int| 0 <= i < ids.len() implies live(e, #[trigger] ids[i]) by {
        lemma_tally_contains(ids, i);
        assert(outside(e, ids[i]) >= tally(ids, ids[i]));
    }
}

/// Gives up the defaults and the cells of a call.
fn give_up_rest<T: ResourceTracker>(heap: &mut Heap<T>, defaults: Vec<Value>, cells: &[HeapId])
    requires
        old(heap)@.wf(),
        owns(old(heap)@.entries, defaults@ + ref_values(cells@)),
    ensures
        old(heap)@.gave_up(final(heap)@, refs(defaults@ + ref_values(cells@))),
{
    let mut rest: Vec<Value> = defaults;
    push_cells(&mut rest, cells);
    heap.discard_all(rest.as_slice());
}

/// Arguments, then defaults and cells, are everything that a call is given.
proof fn lemma_given_in_steps<T: ResourceTracker>(
    a: HeapModel<T>,
    b: HeapModel<T>,
    c: HeapModel<T>,
    all: Seq<Value>,
    defaults: Seq<Value>,
    cells: Seq<HeapId>,
)
    requires
        a.gave_up(b, refs(all)),
        b.gave_up(c, refs(defaults + ref_values(cells))),
    ensures
        a.gave_up(c, refs(all + defaults + ref_values(cells))),
        gives_back(a.entries, c.entries, all + defaults + ref_values(cells)),
        spares_others(a.entries, c.entries, all + defaults + ref_values(cells)),
{
    let rest = defaults + ref_values(cells);
    lemma_model_gave_up_trans(a, b, c, refs(all), refs(rest));
    lemma_refs_concat(all, rest);
    assert(all + rest =~= all + defaults + ref_values(cells));
    assert forall|x: HeapId| #[trigger]
        outside(c.entries, x) == outside(a.entries, x) - holds(all + defaults + ref_values(cells), x) by {
        assert(outside(c.entries, x) == outside(a.entries, x) - tally(refs(all + defaults + ref_values(cells)), x));
    }
}

impl<T: ResourceTracker> VM<T> {
    /// Calls a sync function by pushing a new frame.
    ///
    /// Sets up the function's namespace with bound arguments, cell variables,
    /// and free variables (captured from enclosing scope for closures).
    #[verifier::rlimit(60)]
    pub(crate) fn call_sync_function(
        &mut self,
        func_id: FunctionId,
        cells: &[HeapId],
        defaults: Vec<Value>,
        args: ArgValues,
    ) -> (r: Result<CallResult, RunError>)
        requires
            old(self)@.heap.wf(),
            old(self)@.function_ready(func_id, cells@, defaults@, args),
            owns(old(self)@.heap.entries, args.values() + defaults@ + ref_values(cells@)),
        ensures
            calls_sync(old(self)@, final(self)@, func_id, cells@, defaults@, args, r),
            final(self)@.heap.wf(),
            final(self)@.stack == old(self)@.stack,
            sound(final(self)@.heap.entries),
            settles_up(
                old(self)@.heap.entries,
                final(self)@.heap.entries,
                args.values() + defaults@ + ref_values(cells@),
                r,
            ),
    {
        let ghost before = self@;
        let ghost f = before.function(func_id);
        let ghost all = args.values();
        let ghost given = all + defaults@ + ref_values(cells@);
        proof {
            assert(function_views(self.interns.functions@)[func_id.0 as int] == self.interns.functions@[func_id.0 as int]@);
            assert forall|x: HeapId| #[trigger] outside(before.heap.entries, x) >= holds(all, x) + holds(defaults@, x)
                + tally(cells@, x) + kept(x) by {
                lemma_given_holds(all, defaults@, cells@, x);
                assert(outside(before.heap.entries, x) >= tally(refs(given), x) + kept(x));
            }
            assert forall|x: HeapId| #[trigger] holds(all, x) <= holds(given, x) by {
                lemma_given_holds(all, defaults@, cells@, x);
            }
            lemma_owns_part(before.heap.entries, given, all);
        }
        // Get call position BEFORE borrowing namespaces mutably
        let call_position: usize = self.current_position();
        let func: &Function = self.interns.get_function(func_id);
        // 1. Create new namespace for function
        let namespace_idx: usize = match self.namespaces.new_namespace(func.namespace_size, &mut self.heap) {
            Ok(index) => index,
            Err(e) => {
                args.drop_with_heap(&mut self.heap);
                let ghost mid = self.heap@;
                proof {
                    lemma_late_owned(before.heap, mid, all, defaults@, cells@);
                }
                give_up_rest(&mut self.heap, defaults, cells);
                proof {
                    lemma_given_in_steps(before.heap, mid, self.heap@, all, defaults@, cells@);
                    assert(self@ =~= before.with_heap(self.heap@));
                }
                return Err(RunError::Resource(e));
            },
        };
        let ghost deep = self.heap@;
        proof {
            assert forall|x: HeapId| #[trigger] outside(deep.entries, x) >= tally(refs(all), x) + kept(x) by {
                assert(outside(before.heap.entries, x) >= holds(all, x) + holds(defaults@, x) + tally(cells@, x) + kept(x));
            }
            lemma_counted_live_values(deep.entries, defaults@);
            lemma_less_room(deep, call_room(f, cells@.len()), f.params.len());
            assert(scene(deep, self.interns) =~= scene(before.heap, before.interns));
        }
        // 2. Bind arguments to parameters
        let bound: Result<Vec<Value>, RunError> = func.signature.bind(
            args,
            defaults.as_slice(),
            &mut self.heap,
            &self.interns,
            func.name,
        );
        let ghost settled = self.heap@;
        let mut namespace: Vec<Value> = match bound {
            Ok(values) => values,
            Err(e) => {
                proof {
                    assert forall|x: HeapId| #[trigger]
                        outside(settled.entries, x) >= tally(refs(Seq::<Value>::empty()), x) + kept(x) by {
                        assert(outside(settled.entries, x) >= kept(x));
                    }
                    assert(self.namespaces@.last() =~= Seq::<Value>::empty());
                }
                self.namespaces.drop_with_heap(&mut self.heap);
                let ghost shallow = HeapModel { recursion_depth: before.heap.recursion_depth, ..settled };
                let ghost emptied = self.heap@;
                proof {
                    lemma_gave_up_at_depth(deep, settled, refs(all), before.heap.recursion_depth);
                    assert(before.heap.gave_up(shallow, refs(all)));
                    lemma_model_gave_up_trans(before.heap, shallow, emptied, refs(all), refs(Seq::<Value>::empty()));
                    assert(refs(all) + refs(Seq::<Value>::empty()) =~= refs(all));
                    lemma_late_owned(before.heap, emptied, all, defaults@, cells@);
                }
                give_up_rest(&mut self.heap, defaults, cells);
                proof {
                    lemma_given_in_steps(before.heap, emptied, self.heap@, all, defaults@, cells@);
                    assert(self@ =~= before.with_heap(self.heap@)) by {
                        assert(self@.namespaces =~= before.namespaces);
                    }
                }
                return Err(e);
            },
        };
        let ghost values = namespace@;
        // Clean up defaults - they were copied into the namespace by bind()
        proof {
            assert forall|x: HeapId| #[trigger] outside(settled.entries, x) >= tally(refs(defaults@), x) + kept(x) by {
                assert(outside(before.heap.entries, x) >= holds(all, x) + holds(defaults@, x) + tally(cells@, x) + kept(x));
                assert(outside(settled.entries, x) == outside(deep.entries, x) - holds(all, x) + holds(values, x));
            }
        }
        self.heap.discard_all(defaults.as_slice());
        let ghost rest = self.heap@;
        let ghost slots = function_binding(
            before.scene(),
            f.name.name_id,
            f.params,
            defaults@.len(),
            args.positional(),
            args.keywords(),
        )->Ok_0;
        proof {
            assert forall|x: HeapId| #[trigger]
                outside(rest.entries, x) >= holds(values, x) + tally(cells@, x) + kept(x) by {
                lemma_after_binding(before.heap, deep, settled, rest, all, defaults@, cells@, values, x);
            }
            lemma_ready_for_cells(deep, settled, rest, f, all, defaults@, slots, args, values, cells@.len());
            lemma_less_room(
                rest,
                3 * f.cell_param_indices.len() + cells@.len(),
                2 * f.cell_param_indices.len() + cells@.len(),
            );
        }
        // 3. Create cells for variables captured by nested functions
        let (made, error): (Vec<HeapId>, Option<ResourceError>) = make_cells(
            &mut namespace,
            &func.cell_param_indices,
            &mut self.heap,
            Ghost(cells@.len()),
        );
        let ghost held = self.heap@;
        let ghost inner = values + ref_values(made@);
        proof {
            assert forall|x: HeapId| #[trigger]
                outside(held.entries, x) == outside(before.heap.entries, x) - holds(all + defaults@, x) + holds(inner, x) by {
                lemma_after_binding(before.heap, deep, settled, rest, all, defaults@, cells@, values, x);
                lemma_given_holds(all, defaults@, cells@, x);
                lemma_holds_concat(values, ref_values(made@), x);
                lemma_ref_values(made@);
            }
            assert forall|x: HeapId| #[trigger]
                outside(held.entries, x) >= holds(inner, x) + tally(cells@, x) + kept(x) by {
                assert(outside(rest.entries, x) >= holds(values, x) + tally(cells@, x) + kept(x));
                lemma_holds_concat(values, ref_values(made@), x);
                lemma_ref_values(made@);
            }
        }
        if let Some(e) = error {
            self.namespaces.set_last(namespace);
            proof {
                assert(self@.namespaces.last() =~= inner);
                assert forall|x: HeapId| #[trigger] outside(held.entries, x) >= tally(refs(inner), x) + kept(x) by {
                    assert(outside(held.entries, x) >= holds(inner, x) + tally(cells@, x) + kept(x));
                }
            }
            let none: Vec<Value> = Vec::new();
            self.namespaces.drop_with_heap(&mut self.heap);
            let ghost shallow = HeapModel { recursion_depth: before.heap.recursion_depth, ..held };
            let ghost emptied = self.heap@;
            proof {
                assert(shallow.gave_up(emptied, refs(inner)));
                assert(none@ + ref_values(cells@) =~= ref_values(cells@));
                lemma_ref_values(cells@);
                assert forall|x: HeapId| #[trigger]
                    outside(emptied.entries, x) >= tally(refs(none@ + ref_values(cells@)), x) + kept(x) by {
                    assert(outside(emptied.entries, x) == outside(shallow.entries, x) - tally(refs(inner), x));
                    assert(outside(held.entries, x) >= holds(inner, x) + tally(cells@, x) + kept(x));
                }
            }
            give_up_rest(&mut self.heap, none, cells);
            proof {
                lemma_model_gave_up_trans(shallow, emptied, self.heap@, refs(inner), refs(ref_values(cells@)));
                lemma_refs_concat(inner, ref_values(cells@));
                assert(self@.namespaces =~= before.namespaces);
                assert(self@ =~= before.with_heap(self.heap@));
                assert(settled.gave_up(rest, refs(defaults@)));
                assert(made_cells(rest, held, values, f.cell_param_indices, made@, error));
                assert(enters(
                    before,
                    self@,
                    func_id,
                    cells@,
                    defaults@,
                    args,
                    slots,
                    Err(RunError::Resource(e)),
                ));
                assert forall|x: HeapId| #[trigger]
                    outside(self.heap@.entries, x) == outside(before.heap.entries, x) - holds(given, x) by {
                    lemma_given_holds(all, defaults@, cells@, x);
                    lemma_holds_concat(inner, ref_values(cells@), x);
                    assert(outside(self.heap@.entries, x) == outside(shallow.entries, x) - tally(
                        refs(inner) + refs(ref_values(cells@)),
                        x,
                    ));
                    assert(outside(held.entries, x) == outside(before.heap.entries, x) - holds(all + defaults@, x)
                        + holds(inner, x));
                }
            }
            return Err(RunError::Resource(e));
        }
        // 4. Copy captured cells (free vars) into namespace
        proof {
            assert forall|x: HeapId| #[trigger] outside(held.entries, x) >= tally(cells@, x) by {
                assert(outside(held.entries, x) >= holds(inner, x) + tally(cells@, x) + kept(x));
            }
            lemma_counted_live(held.entries, cells@);
        }
        count_cells(cells, &mut self.heap);
        push_cells(&mut namespace, cells);
        // 5. Fill remaining slots with Undefined
        pad(&mut namespace, func.namespace_size);
        self.namespaces.set_last(namespace);
        let mut frame_cells: Vec<HeapId> = made;
        let mut captured: Vec<HeapId> = copy_vec(cells);
        frame_cells.append(&mut captured);
        // 6. Push new frame
        let frame: CallFrame = CallFrame::new_function(
            self.stack.len(),
            namespace_idx,
            func_id,
            frame_cells,
            Some(call_position),
        );
        self.push_frame(frame);
        proof {
            lemma_bumped(held.entries, self.heap@.entries, cells@);
            assert(self@.namespaces =~= before.namespaces.push(
                padded(values + ref_values(made@) + ref_values(cells@), f.namespace_size as nat),
            ));
            assert(settled.gave_up(rest, refs(defaults@)));
            assert(made_cells(rest, held, values, f.cell_param_indices, made@, error));
            assert(enters(before, self@, func_id, cells@, defaults@, args, slots, Ok(CallResult::FramePushed)));
            assert forall|x: HeapId| #[trigger]
                outside(self.heap@.entries, x) >= outside(before.heap.entries, x) - holds(given, x) by {
                lemma_given_holds(all, defaults@, cells@, x);
                assert(outside(held.entries, x) == outside(before.heap.entries, x) - holds(all + defaults@, x) + holds(
                    inner,
                    x,
                ));
            }
            assert forall|x: HeapId| #[trigger] outside(self.heap@.entries, x) >= kept(x) by {
                assert(outside(held.entries, x) >= holds(inner, x) + tally(cells@, x) + kept(x));
            }
        }
        Ok(CallResult::FramePushed)
    }
}

/// Once the arguments are given up, defaults and cells are still held.
proof fn lemma_late_owned<T: ResourceTracker>(
    before: HeapModel<T>,
    mid: HeapModel<T>,
    all: Seq<Value>,
    defaults: Seq<Value>,
    cells: Seq<HeapId>,
)
    requires
        owns(before.entries, all + defaults + ref_values(cells)),
        before.gave_up(mid, refs(all)),
    ensures
        owns(mid.entries, defaults + ref_values(cells)),
{
    assert forall|x: HeapId| #[trigger]
        outside(mid.entries, x) >= tally(refs(defaults + ref_values(cells)), x) + kept(x) by {
        lemma_given_holds(all, defaults, cells, x);
        lemma_holds_concat(defaults, ref_values(cells), x);
        lemma_ref_values(cells);
        assert(outside(before.entries, x) >= tally(refs(all + defaults + ref_values(cells)), x) + kept(x));
        assert(outside(mid.entries, x) == outside(before.entries, x) - tally(refs(all), x));
    }
}

impl<T: ResourceTracker> VM<T> {
    /// Creates a Coroutine for an async function call.
    ///
    /// Binds arguments immediately (errors are raised at call time, not await time)
    /// but stores the namespace in the Coroutine instead of registering it.
    /// The coroutine is executed when awaited via Await.
    #[verifier::rlimit(60)]
    pub(crate) fn create_coroutine(
        &mut self,
        func_id: FunctionId,
        cells: &[HeapId],
        defaults: Vec<Value>,
        args: ArgValues,
    ) -> (r: Result<CallResult, RunError>)
        requires
            old(self)@.heap.wf(),
            old(self)@.function_ready(func_id, cells@, defaults@, args),
            owns(old(self)@.heap.entries, args.values() + defaults@ + ref_values(cells@)),
        ensures
            calls_async(old(self)@, final(self)@, func_id, cells@, defaults@, args, r),
            !(r matches Ok(CallResult::FramePushed)),
            final(self)@.heap.wf(),
            sound(final(self)@.heap.entries),
            settles_up(
                old(self)@.heap.entries,
                final(self)@.heap.entries,
                args.values() + defaults@ + ref_values(cells@),
                r,
            ),
    {
        let ghost before = self@;
        let ghost f = before.function(func_id);
        let ghost all = args.values();
        let ghost given = all + defaults@ + ref_values(cells@);
        proof {
            assert(function_views(self.interns.functions@)[func_id.0 as int] == self.interns.functions@[func_id.0 as int]@);
            assert forall|x: HeapId| #[trigger] outside(before.heap.entries, x) >= holds(all, x) + holds(defaults@, x)
                + tally(cells@, x) + kept(x) by {
                lemma_given_holds(all, defaults@, cells@, x);
                assert(outside(before.heap.entries, x) >= tally(refs(given), x) + kept(x));
            }
            assert forall|x: HeapId| #[trigger] outside(before.heap.entries, x) >= tally(refs(all), x) + kept(x) by {
                assert(outside(before.heap.entries, x) >= holds(all, x) + holds(defaults@, x) + tally(cells@, x) + kept(x));
            }
            lemma_counted_live_values(before.heap.entries, defaults@);
            lemma_less_room(before.heap, call_room(f, cells@.len()), f.params.len());
        }
        let func: &Function = self.interns.get_function(func_id);
        // 1. and 2. Bind arguments to parameters in a new namespace
        let bound: Result<Vec<Value>, RunError> = func.signature.bind(
            args,
            defaults.as_slice(),
            &mut self.heap,
            &self.interns,
            func.name,
        );
        let ghost settled = self.heap@;
        let mut namespace: Vec<Value> = match bound {
            Ok(values) => values,
            Err(e) => {
                proof {
                    lemma_late_owned(before.heap, settled, all, defaults@, cells@);
                }
                give_up_rest(&mut self.heap, defaults, cells);
                proof {
                    lemma_given_in_steps(before.heap, settled, self.heap@, all, defaults@, cells@);
                    assert(self@ =~= before.with_heap(self.heap@));
                }
                return Err(e);
            },
        };
        let ghost values = namespace@;
        proof {
            assert forall|x: HeapId| #[trigger] outside(settled.entries, x) >= tally(refs(defaults@), x) + kept(x) by {
                assert(outside(before.heap.entries, x) >= holds(all, x) + holds(defaults@, x) + tally(cells@, x) + kept(x));
                assert(outside(settled.entries, x) == outside(before.heap.entries, x) - holds(all, x) + holds(values, x));
            }
        }
        // The defaults were copied into the namespace
        self.heap.discard_all(defaults.as_slice());
        let ghost rest = self.heap@;
        let ghost slots = function_binding(
            before.scene(),
            f.name.name_id,
            f.params,
            defaults@.len(),
            args.positional(),
            args.keywords(),
        )->Ok_0;
        proof {
            assert forall|x: HeapId| #[trigger]
                outside(rest.entries, x) >= holds(values, x) + tally(cells@, x) + kept(x) by {
                lemma_after_binding(before.heap, before.heap, settled, rest, all, defaults@, cells@, values, x);
            }
            lemma_ready_for_cells(before.heap, settled, rest, f, all, defaults@, slots, args, values, cells@.len());
        }
        // 3. Create cells for variables captured by nested functions
        let (made, error): (Vec<HeapId>, Option<ResourceError>) = make_cells(
            &mut namespace,
            &func.cell_param_indices,
            &mut self.heap,
            Ghost(f.cell_param_indices.len() + cells@.len()),
        );
        let ghost held = self.heap@;
        let ghost inner = values + ref_values(made@);
        let ghost whole = inner + ref_values(cells@);
        proof {
            assert forall|x: HeapId| #[trigger]
                outside(held.entries, x) == outside(before.heap.entries, x) - holds(given, x) + holds(whole, x) by {
                lemma_after_binding(before.heap, before.heap, settled, rest, all, defaults@, cells@, values, x);
                lemma_given_holds(all, defaults@, cells@, x);
                lemma_holds_concat(inner, ref_values(cells@), x);
                lemma_holds_concat(values, ref_values(made@), x);
                lemma_ref_values(made@);
                lemma_ref_values(cells@);
            }
            assert forall|x: HeapId| #[trigger] outside(held.entries, x) >= tally(refs(whole), x) + kept(x) by {
                assert(outside(rest.entries, x) >= holds(values, x) + tally(cells@, x) + kept(x));
                lemma_holds_concat(inner, ref_values(cells@), x);
                lemma_holds_concat(values, ref_values(made@), x);
                lemma_ref_values(made@);
                lemma_ref_values(cells@);
            }
        }
        // 4. Copy captured cells (free vars) into namespace
        push_cells(&mut namespace, cells);
        if let Some(e) = error {
            self.heap.discard_all(namespace.as_slice());
            proof {
                assert(settled.gave_up(rest, refs(defaults@)));
                assert(made_cells(rest, held, values, f.cell_param_indices, made@, error));
                assert(suspends(
                    before,
                    self.heap@,
                    func_id,
                    cells@,
                    defaults@,
                    args,
                    slots,
                    Err(RunError::Resource(e)),
                ));
                assert(self@ =~= before.with_heap(self.heap@));
                assert forall|x: HeapId| #[trigger]
                    outside(self.heap@.entries, x) == outside(before.heap.entries, x) - holds(given, x) by {
                    assert(outside(self.heap@.entries, x) == outside(held.entries, x) - tally(refs(whole), x));
                    assert(outside(held.entries, x) == outside(before.heap.entries, x) - holds(given, x) + holds(whole, x));
                }
            }
            return Err(RunError::Resource(e));
        }
        let mut frame_cells: Vec<HeapId> = made;
        let mut more_cells: Vec<HeapId> = copy_vec(cells);
        frame_cells.append(&mut more_cells);
        proof {
            assert forall|x: HeapId| #[trigger] outside(held.entries, x) >= tally(made@ + cells@, x) by {
                assert(outside(held.entries, x) >= tally(refs(whole), x) + kept(x));
                lemma_holds_concat(inner, ref_values(cells@), x);
                lemma_holds_concat(values, ref_values(made@), x);
                lemma_ref_values(made@);
                lemma_ref_values(cells@);
                lemma_tally_concat(made@, cells@, x);
            }
            lemma_counted_live(held.entries, made@ + cells@);
        }
        // The frame's cells are counted beside the variables
        count_cells(frame_cells.as_slice(), &mut self.heap);
        let ghost captured = self.heap@;
        // 5. Fill remaining slots with Undefined
        pad(&mut namespace, func.namespace_size);
        let mut held_by_it: Vec<Value> = copy_vec(namespace.as_slice());
        push_cells(&mut held_by_it, frame_cells.as_slice());
        // 6. Create Coroutine on heap
        let coroutine: Coroutine = Coroutine::new(func_id, namespace, frame_cells);
        let ghost c = coroutine;
        proof {
            assert(is_coroutine_of(c, f, func_id, values, made@, cells@));
            assert(bumped(held.entries, captured.entries, made@ + cells@));
            lemma_bumped(held.entries, captured.entries, made@ + cells@);
            assert forall|x: HeapId| #[trigger]
                outside(captured.entries, x) == outside(before.heap.entries, x) - holds(given, x) + holds(held_by_it@, x)
                    && holds(held_by_it@, x) == tally(child_ids(HeapData::Coroutine(c)), x) && outside(
                    captured.entries,
                    x,
                ) >= holds(held_by_it@, x) + kept(x) by {
                lemma_coroutine_holds(c, f, func_id, values, made@, cells@, x);
                lemma_holds_concat(c.namespace@, ref_values(c.frame_cells@), x);
                lemma_ref_values(c.frame_cells@);
                lemma_tally_concat(c.frame_cells@, refs(c.namespace@), x);
                lemma_tally_concat(made@, cells@, x);
                lemma_padded_holds(whole, f.namespace_size as nat, x);
                assert(outside(held.entries, x) == outside(before.heap.entries, x) - holds(given, x) + holds(whole, x));
                assert(outside(held.entries, x) >= tally(refs(whole), x) + kept(x));
            }
        }
        let outcome: Result<HeapId, ResourceError> = self.heap.allocate(HeapData::Coroutine(coroutine));
        let ghost allocated = self.heap@;
        let r: Result<CallResult, RunError> = match outcome {
            Ok(id) => Ok(CallResult::Push(Value::Ref(id))),
            Err(e) => {
                proof {
                    assert forall|x: HeapId| #[trigger]
                        outside(allocated.entries, x) >= tally(refs(held_by_it@), x) + kept(x) by {
                        assert(outside(captured.entries, x) >= holds(held_by_it@, x) + kept(x));
                    }
                }
                self.heap.discard_all(held_by_it.as_slice());
                Err(RunError::Resource(e))
            },
        };
        proof {
            if outcome is Err {
                assert(captured.allocates(allocated, HeapData::Coroutine(c), Err(outcome->Err_0)));
            }
            assert(sleeps(held, self.heap@, f, func_id, values, made@, cells@, r));
            assert(settled.gave_up(rest, refs(defaults@)));
            assert(made_cells(rest, held, values, f.cell_param_indices, made@, error));
            assert(suspends(before, self.heap@, func_id, cells@, defaults@, args, slots, r));
            assert(self@ =~= before.with_heap(self.heap@));
            match outcome {
                Ok(id) => {
                    allocation_balances(captured, HeapData::Coroutine(c), self.heap@.tracker);
                    assert forall|x: HeapId| #[trigger]
                        outside(self.heap@.entries, x) == outside(before.heap.entries, x) - holds(given, x) + holds(
                            seq![Value::Ref(id)],
                            x,
                        ) by {
                        lemma_holds_one(Value::Ref(id), x);
                        assert(outside(captured.entries, x) == outside(before.heap.entries, x) - holds(given, x) + holds(
                            held_by_it@,
                            x,
                        ));
                    }
                    assert forall|x: HeapId| #[trigger] outside(self.heap@.entries, x) >= kept(x) by {
                        assert(outside(captured.entries, x) >= holds(held_by_it@, x) + kept(x));
                    }
                },
                Err(_) => {
                    assert forall|x: HeapId| #[trigger]
                        outside(self.heap@.entries, x) == outside(before.heap.entries, x) - holds(given, x) by {
                        assert(outside(self.heap@.entries, x) == outside(allocated.entries, x) - tally(
                            refs(held_by_it@),
                            x,
                        ));
                        assert(outside(captured.entries, x) == outside(before.heap.entries, x) - holds(given, x) + holds(
                            held_by_it@,
                            x,
                        ));
                    }
                },
            }
        }
        r
    }

    /// Calls a defined function by pushing a new frame or creating a coroutine.
    ///
    /// For sync functions: sets up the function's namespace with bound arguments,
    /// cell variables, and free variables, then pushes a new frame.
    ///
    /// For async functions: binds arguments immediately but returns a Coroutine
    /// instead of pushing a frame. The coroutine stores the pre-bound namespace
    /// and will be executed when awaited.
    pub(crate) fn call_def_function(
        &mut self,
        func_id: FunctionId,
        cells: &[HeapId],
        defaults: Vec<Value>,
        args: ArgValues,
    ) -> (r: Result<CallResult, RunError>)
        requires
            old(self)@.heap.wf(),
            old(self)@.function_ready(func_id, cells@, defaults@, args),
            owns(old(self)@.heap.entries, args.values() + defaults@ + ref_values(cells@)),
        ensures
            calls_def(old(self)@, final(self)@, func_id, cells@, defaults@, args, r),
            final(self)@.heap.wf(),
            final(self)@.stack == old(self)@.stack,
            sound(final(self)@.heap.entries),
            settles_up(
                old(self)@.heap.entries,
                final(self)@.heap.entries,
                args.values() + defaults@ + ref_values(cells@),
                r,
            ),
    {
        proof {
            assert(function_views(self.interns.functions@)[func_id.0 as int] == self.interns.functions@[func_id.0 as int]@);
        }
        let is_async: bool = self.interns.get_function(func_id).is_async;
        if is_async {
            // Async function: create a Coroutine instead of pushing a frame
            self.create_coroutine(func_id, cells, defaults, args)
        } else {
            // Sync function: push a new frame
            self.call_sync_function(func_id, cells, defaults, args)
        }
    }
}

/// May a call of a function of the program turn the machine into `after` and give `r`?
pub open spec fn calls_def<T: ResourceTracker>(
    before: VmModel<T>,
    after: VmModel<T>,
    id: FunctionId,
    cells: Seq<HeapId>,
    defaults: Seq<Value>,
    args: ArgValues,
    r: Result<CallResult, RunError>,
) -> bool {
    if before.function(id).is_async {
        calls_async(before, after, id, cells, defaults, args, r)
    } else {
        calls_sync(before, after, id, cells, defaults, args, r)
    }
}

/// What a coroutine holds: its values, and every cell twice.
proof fn lemma_coroutine_holds(
    c: Coroutine,
    f: FunctionView,
    id: FunctionId,
    values: Seq<Value>,
    made: Seq<HeapId>,
    cells: Seq<HeapId>,
    x: HeapId,
)
    requires
        is_coroutine_of(c, f, id, values, made, cells),
        values.len() + made.len() + cells.len() <= f.namespace_size,
    ensures
        tally(child_ids(HeapData::Coroutine(c)), x) == holds(values, x) + 2 * tally(made, x) + 2 * tally(cells, x),
{
    let ns = values + ref_values(made) + ref_values(cells);
    lemma_tally_concat(c.frame_cells@, refs(c.namespace@), x);
    lemma_tally_concat(made, cells, x);
    lemma_padded_holds(ns, f.namespace_size as nat, x);
    lemma_holds_concat(values + ref_values(made), ref_values(cells), x);
    lemma_holds_concat(values, ref_values(made), x);
    lemma_ref_values(made);
    lemma_ref_values(cells);
}

/// Values that a heap counts lead to live entries.
proof fn lemma_counted_live_values(e: Entries, vs: Seq<Value>)
    requires
        forall|x: HeapId| #[trigger] outside(e, x) >= holds(vs, x),
    ensures
        all_live(e, refs(vs)),
{
    assert forall|x: HeapId| #[trigger] outside(e, x) >= tally(refs(vs), x) by {
        assert(outside(e, x) >= holds(vs, x));
    }
    lemma_counted_live(e, refs(vs));
}

/// What is counted once arguments are bound and defaults are given up.
proof fn lemma_after_binding<T: ResourceTracker>(
    before: HeapModel<T>,
    deep: HeapModel<T>,
    settled: HeapModel<T>,
    rest: HeapModel<T>,
    all: Seq<Value>,
    defaults: Seq<Value>,
    cells: Seq<HeapId>,
    values: Seq<Value>,
    x: HeapId,
)
    requires
        deep.entries == before.entries,
        outside(before.entries, x) >= holds(all, x) + holds(defaults, x) + tally(cells, x) + kept(x),
        outside(settled.entries, x) == outside(deep.entries, x) - holds(all, x) + holds(values, x),
        settled.gave_up(rest, refs(defaults)),
    ensures
        outside(rest.entries, x) == outside(before.entries, x) - holds(all, x) - holds(defaults, x) + holds(values, x),
        outside(rest.entries, x) >= holds(values, x) + tally(cells, x) + kept(x),
{
    assert(outside(rest.entries, x) == outside(settled.entries, x) - tally(refs(defaults), x));
}

/// Once arguments are bound, cells can be made.
proof fn lemma_ready_for_cells<T: ResourceTracker>(
    deep: HeapModel<T>,
    settled: HeapModel<T>,
    rest: HeapModel<T>,
    f: FunctionView,
    all: Seq<Value>,
    defaults: Seq<Value>,
    slots: Seq<Option<usize>>,
    args: ArgValues,
    values: Seq<Value>,
    cells: nat,
)
    requires
        f.wf(),
        deep.room(call_room(f, cells)),
        slots.len() == f.params.len(),
        values.len() == f.params.len(),
        settles_call(deep, settled, used_defaults(defaults, slots), keys_from(all, args.positional().len())),
        settled.gave_up(rest, refs(defaults)),
        forall|x: HeapId| #[trigger] outside(rest.entries, x) >= holds(values, x),
    ensures
        rest.room(3 * f.cell_param_indices.len() + cells),
        forall|i: int|
            0 <= i < f.cell_param_indices.len() ==> (#[trigger] f.cell_param_indices[i] matches Some(p) ==> p
                < values.len() && (values[p as int] matches Value::Ref(id) ==> live(rest.entries, id))),
{
    let n = (3 * f.cell_param_indices.len() + cells) as nat;
    lemma_settled_room(
        deep,
        settled,
        used_defaults(defaults, slots),
        keys_from(all, args.positional().len()),
        n,
    );
    lemma_gave_up_room(settled, rest, refs(defaults), n);
    assert forall|i: int| 0 <= i < f.cell_param_indices.len() implies (#[trigger] f.cell_param_indices[i] matches Some(p)
        ==> p < values.len() && (values[p as int] matches Value::Ref(id) ==> live(rest.entries, id))) by {
        if let Some(p) = f.cell_param_indices[i] {
            if let Value::Ref(id) = values[p as int] {
                lemma_holds_ge(values, p as int, id);
                assert(outside(rest.entries, id) >= holds(values, id));
            }
        }
    }
}

} // verus!
