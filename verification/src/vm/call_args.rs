//! The arguments of a call opcode: taken off the stack, or copied out of a tuple and a
//! dictionary.

use crate::args::{ArgValues, KwargsValues, inline_entries, lemma_owns_part, owns, push_entries};
use crate::function::copy_vec;
use crate::heap::HeapModel;
use crate::heap_data::{HeapData, child_ids};
use crate::heap_model::{data_at, kept, live, outside, readable, sound, sound_heaps_have_no_dangling_references};
use crate::heap_ops::{all_live, bumped, lemma_bumped};
use crate::intern::StringId;
use crate::resource::ResourceTracker;
use crate::types::mappings::{Dict, DictEntry, flat, lemma_flat_len};
use crate::value::{HeapId, Value, holds, lemma_holds_concat, lemma_holds_push, lemma_refs_concat, refs, tally};
use crate::vm::VM;
use vstd::prelude::*;

verus! {

/// How the arguments of a call are written.
pub enum Wrapping {
    /// By position alone.
    Plain,
    /// With keywords from the source text.
    Named,
    /// With a mapping that is given with `**`.
    Mapping,
}

/// Do the arguments have the form that belongs to how they are written?
///
/// Up to two positional arguments stand by themselves, and more are a list without
/// keywords. With keywords or a mapping, arguments are a list of positional ones and the
/// keywords, or the keywords alone, or nothing at all. A mapping without entries counts
/// as no keywords.
pub open spec fn wrapped(args: ArgValues, how: Wrapping) -> bool {
    match how {
        Wrapping::Plain => match args {
            ArgValues::Empty | ArgValues::One(_) | ArgValues::Two(..) => true,
            ArgValues::ArgsKargs { args: list, kwargs } => list@.len() > 2 && kwargs is Empty,
            ArgValues::Kwargs(_) => false,
        },
        Wrapping::Named => match args {
            ArgValues::Empty => true,
            ArgValues::Kwargs(kwargs) => kwargs.entries().len() > 0 && kwargs is Inline,
            ArgValues::ArgsKargs { args: list, kwargs } => list@.len() > 0 && kwargs is Inline,
            _ => false,
        },
        Wrapping::Mapping => match args {
            ArgValues::Empty => true,
            ArgValues::Kwargs(kwargs) => kwargs.entries().len() > 0 && kwargs is Dict,
            ArgValues::ArgsKargs { args: list, kwargs } => list@.len() > 0 && if kwargs.entries().len() > 0 {
                kwargs is Dict
            } else {
                kwargs is Empty
            },
            _ => false,
        },
    }
}

/// Are these the arguments that `args` passes, in the form that belongs to them?
pub open spec fn passes(args: ArgValues, how: Wrapping, pos: Seq<Value>, kws: Seq<DictEntry>) -> bool {
    args.positional() == pos && args.keywords() == kws && wrapped(args, how)
}

/// How are arguments written that come from a tuple and, perhaps, a dictionary?
pub open spec fn unpacked_form(kwargs: Option<Value>) -> Wrapping {
    if kwargs is Some { Wrapping::Mapping } else { Wrapping::Plain }
}

/// Wraps positional arguments.
pub fn build_args_positional_only(copied_args: Vec<Value>) -> (r: ArgValues)
    ensures
        passes(r, Wrapping::Plain, copied_args@, Seq::empty()),
{
    let n: usize = copied_args.len();
    let r: ArgValues = if n == 0 {
        ArgValues::Empty
    } else if n == 1 {
        ArgValues::One(copied_args[0])
    } else if n == 2 {
        ArgValues::Two(copied_args[0], copied_args[1])
    } else {
        ArgValues::ArgsKargs { args: copied_args, kwargs: KwargsValues::Empty }
    };
    proof {
        assert(r.positional() =~= copied_args@);
        assert(r.keywords() =~= Seq::empty());
    }
    r
}

/// Wraps positional and keyword arguments.
pub fn build_args(args: Vec<Value>, kwargs: KwargsValues) -> (r: ArgValues)
    ensures
        r.positional() == args@,
        r.keywords() == kwargs.entries(),
        match r {
            ArgValues::Empty => args@.len() == 0 && kwargs.entries().len() == 0,
            ArgValues::Kwargs(own) => args@.len() == 0 && kwargs.entries().len() > 0 && own == kwargs,
            ArgValues::ArgsKargs { args: list, kwargs: own } => args@.len() > 0 && list == args && own == kwargs,
            _ => false,
        },
{
    let none: bool = match &kwargs {
        KwargsValues::Empty => true,
        KwargsValues::Inline(pairs) => pairs.len() == 0,
        KwargsValues::Dict(d) => d.entries.len() == 0,
    };
    let r: ArgValues = if args.len() == 0 && none {
        ArgValues::Empty
    } else if args.len() == 0 {
        ArgValues::Kwargs(kwargs)
    } else {
        ArgValues::ArgsKargs { args, kwargs }
    };
    proof {
        assert(r.positional() =~= args@);
        assert(r.keywords() =~= kwargs.entries());
    }
    r
}

/// Names and values side by side.
pub open spec fn zipped(names: Seq<StringId>, values: Seq<Value>) -> Seq<DictEntry> {
    Seq::new(names.len(), |i: int| DictEntry { key: Value::InternString(names[i]), value: values[i] })
}

/// Puts names and values side by side.
pub fn zip_keywords(names: &Vec<StringId>, values: &Vec<Value>) -> (r: KwargsValues)
    requires
        names@.len() == values@.len(),
    ensures
        r is Inline,
        r.entries() == zipped(names@, values@),
{
    let mut pairs: Vec<(StringId, Value)> = Vec::with_capacity(names.len());
    let mut i: usize = 0;
    while i < names.len()
        invariant
            i <= names@.len(),
            names@.len() == values@.len(),
            pairs@.len() == i,
            forall|j: int| 0 <= j < i ==> #[trigger] pairs@[j] == (names@[j], values@[j]),
        decreases names.len() - i,
    {
        pairs.push((names[i], values[i]));
        i = i + 1;
    }
    proof {
        assert(inline_entries(pairs@) =~= zipped(names@, values@));
    }
    KwargsValues::Inline(pairs)
}

/// The values of keywords hold what the arguments hold.
pub proof fn lemma_zipped_holds(names: Seq<StringId>, values: Seq<Value>, x: HeapId)
    requires
        names.len() == values.len(),
    ensures
        holds(flat(zipped(names, values)), x) == holds(values, x),
    decreases names.len(),
{
    if names.len() > 0 {
        let es = zipped(names, values);
        assert(es.drop_last() =~= zipped(names.drop_last(), values.drop_last()));
        lemma_zipped_holds(names.drop_last(), values.drop_last(), x);
        assert(values =~= values.drop_last().push(values.last()));
        lemma_holds_push(values.drop_last(), values.last(), x);
        lemma_holds_push(flat(es.drop_last()), es.last().key, x);
        lemma_holds_push(flat(es.drop_last()).push(es.last().key), es.last().value, x);
    }
}

/// A tuple of positional arguments.
pub open spec fn is_args_tuple<T: ResourceTracker>(m: HeapModel<T>, v: Value) -> bool {
    v matches Value::Ref(id) && readable(m.entries, id) && data_at(m.entries, id) is Tuple
}

/// The items of a tuple.
pub open spec fn tuple_args<T: ResourceTracker>(m: HeapModel<T>, v: Value) -> Seq<Value> {
    match v {
        Value::Ref(id) => match data_at(m.entries, id) {
            HeapData::Tuple(t) => t@,
            _ => Seq::empty(),
        },
        _ => Seq::empty(),
    }
}

/// A dictionary of keyword arguments.
pub open spec fn is_kwargs_dict<T: ResourceTracker>(m: HeapModel<T>, v: Value) -> bool {
    v matches Value::Ref(id) && readable(m.entries, id) && data_at(m.entries, id) is Dict
}

/// The entries of a dictionary.
pub open spec fn dict_args<T: ResourceTracker>(m: HeapModel<T>, v: Value) -> Seq<DictEntry> {
    match v {
        Value::Ref(id) => match data_at(m.entries, id) {
            HeapData::Dict(d) => d.entries@,
            _ => Seq::empty(),
        },
        _ => Seq::empty(),
    }
}

/// The keyword arguments that come with a call.
pub open spec fn given_kwargs<T: ResourceTracker>(m: HeapModel<T>, kwargs: Option<Value>) -> Seq<DictEntry> {
    match kwargs {
        Some(v) => dict_args(m, v),
        None => Seq::empty(),
    }
}

/// The values that are there.
pub open spec fn optional(v: Option<Value>) -> Seq<Value> {
    match v {
        Some(v) => seq![v],
        None => Seq::empty(),
    }
}

/// Are the arguments copied out of the tuple and the dictionary, and is the dictionary
/// given up?
pub open spec fn unpacked<T: ResourceTracker>(
    before: HeapModel<T>,
    after: HeapModel<T>,
    args_tuple: Value,
    kwargs: Option<Value>,
) -> bool {
    exists|copied: HeapModel<T>|
        {
            &&& #[trigger] bumped(
                before.entries,
                copied.entries,
                refs(tuple_args(before, args_tuple) + flat(given_kwargs(before, kwargs))),
            )
            &&& copied == before.with_entries(copied.entries)
            &&& match kwargs {
                Some(v) => copied.gave_up(after, refs(seq![v])),
                None => after == copied,
            }
        }
}

/// Can the arguments be unpacked?
pub open spec fn can_unpack<T: ResourceTracker>(m: HeapModel<T>, args_tuple: Value, kwargs: Option<Value>) -> bool {
    &&& is_args_tuple(m, args_tuple)
    &&& kwargs matches Some(v) ==> is_kwargs_dict(m, v)
    &&& m.room(tuple_args(m, args_tuple).len() + 2 * given_kwargs(m, kwargs).len())
    &&& tuple_args(m, args_tuple).len() + 2 * given_kwargs(m, kwargs).len() <= usize::MAX
}

/// What is unpacked leads to live entries.
proof fn lemma_unpacked_live<T: ResourceTracker>(m: HeapModel<T>, args_tuple: Value, kwargs: Option<Value>)
    requires
        can_unpack(m, args_tuple, kwargs),
        sound(m.entries),
    ensures
        all_live(m.entries, refs(tuple_args(m, args_tuple) + flat(given_kwargs(m, kwargs)))),
{
    let pos = tuple_args(m, args_tuple);
    let kws = flat(given_kwargs(m, kwargs));
    lemma_refs_concat(pos, kws);
    let all = refs(pos + kws);
    assert forall|i: int| 0 <= i < all.len() implies live(m.entries, #[trigger] all[i]) by {
        if i < refs(pos).len() {
            if let Value::Ref(id) = args_tuple {
                assert(child_ids(data_at(m.entries, id)) == refs(pos));
                sound_heaps_have_no_dangling_references(m.entries, id, i);
            }
        } else {
            if let Some(Value::Ref(id)) = kwargs {
                assert(child_ids(data_at(m.entries, id)) == refs(kws));
                sound_heaps_have_no_dangling_references(m.entries, id, i - refs(pos).len());
            }
        }
    }
}

/// The copies are counted, and all else is counted as before but for the dictionary.
pub proof fn lemma_unpacked_counts<T: ResourceTracker>(
    before: HeapModel<T>,
    after: HeapModel<T>,
    args_tuple: Value,
    kwargs: Option<Value>,
)
    requires
        can_unpack(before, args_tuple, kwargs),
        sound(before.entries),
        unpacked(before, after, args_tuple, kwargs),
    ensures
        forall|x: HeapId| #[trigger]
            outside(after.entries, x) == outside(before.entries, x) + holds(
                tuple_args(before, args_tuple) + flat(given_kwargs(before, kwargs)),
                x,
            ) - holds(optional(kwargs), x),
{
    let all = tuple_args(before, args_tuple) + flat(given_kwargs(before, kwargs));
    let copied = choose|copied: HeapModel<T>|
        {
            &&& #[trigger] bumped(before.entries, copied.entries, refs(all))
            &&& copied == before.with_entries(copied.entries)
            &&& match kwargs {
                Some(v) => copied.gave_up(after, refs(seq![v])),
                None => after == copied,
            }
        };
    lemma_unpacked_live(before, args_tuple, kwargs);
    lemma_bumped(before.entries, copied.entries, refs(all));
    assert forall|x: HeapId| #[trigger]
        outside(after.entries, x) == outside(before.entries, x) + holds(all, x) - holds(optional(kwargs), x) by {
        assert(outside(copied.entries, x) == outside(before.entries, x) + tally(refs(all), x));
        if let Some(v) = kwargs {
            assert(outside(after.entries, x) == outside(copied.entries, x) - tally(refs(seq![v]), x));
        } else {
            assert(optional(kwargs) =~= Seq::empty());
        }
    }
}

/// After unpacking, the arguments are owned in place of the dictionary.
pub proof fn lemma_unpacked_owned<T: ResourceTracker>(
    before: HeapModel<T>,
    after: HeapModel<T>,
    args_tuple: Value,
    kwargs: Option<Value>,
    others: Seq<Value>,
)
    requires
        can_unpack(before, args_tuple, kwargs),
        unpacked(before, after, args_tuple, kwargs),
        owns(before.entries, optional(kwargs) + others),
    ensures
        owns(after.entries, tuple_args(before, args_tuple) + flat(given_kwargs(before, kwargs)) + others),
{
    let all = tuple_args(before, args_tuple) + flat(given_kwargs(before, kwargs));
    lemma_owns_part(before.entries, optional(kwargs) + others, optional(kwargs) + others);
    lemma_unpacked_counts(before, after, args_tuple, kwargs);
    assert forall|x: HeapId| #[trigger] outside(after.entries, x) >= tally(refs(all + others), x) + kept(x) by {
        lemma_holds_concat(all, others, x);
        lemma_holds_concat(optional(kwargs), others, x);
        assert(outside(before.entries, x) >= tally(refs(optional(kwargs) + others), x) + kept(x));
    }
}

impl<T: ResourceTracker> VM<T> {
    /// Pops `n` arguments from the stack and wraps them in [`ArgValues`].
    pub fn pop_n_args(&mut self, n: usize) -> (r: ArgValues)
        requires
            n <= old(self)@.stack.len(),
        ensures
            passes(r, Wrapping::Plain, old(self)@.stack.skip(old(self)@.stack.len() - n), Seq::empty()),
            final(self)@ == old(self)@.with_stack(old(self)@.stack.take(old(self)@.stack.len() - n)),
    {
        let ghost stack = self@.stack;
        let r: ArgValues = if n == 0 {
            ArgValues::Empty
        } else if n == 1 {
            ArgValues::One(self.pop())
        } else if n == 2 {
            let b: Value = self.pop();
            let a: Value = self.pop();
            ArgValues::Two(a, b)
        } else {
            ArgValues::ArgsKargs { args: self.pop_n(n), kwargs: KwargsValues::Empty }
        };
        proof {
            assert(r.positional() =~= stack.skip(stack.len() - n));
            assert(r.keywords() =~= Seq::empty());
            assert(self@.stack =~= stack.take(stack.len() - n));
            assert(self@ =~= old(self)@.with_stack(stack.take(stack.len() - n)));
        }
        r
    }

    /// Copies positional arguments out of a tuple, and keyword arguments out of a
    /// dictionary, which is given up.
    ///
    /// The keys of a dictionary differ from each other, so its entries can be taken as
    /// they are.
    pub fn unpack_args(&mut self, args_tuple: &Value, kwargs: Option<Value>) -> (r: ArgValues)
        requires
            old(self)@.heap.wf(),
            can_unpack(old(self)@.heap, *args_tuple, kwargs),
            owns(old(self)@.heap.entries, optional(kwargs)),
        ensures
            final(self)@ == old(self)@.with_heap(final(self)@.heap),
            final(self)@.heap.wf(),
            unpacked(old(self)@.heap, final(self)@.heap, *args_tuple, kwargs),
            passes(
                r,
                unpacked_form(kwargs),
                tuple_args(old(self)@.heap, *args_tuple),
                given_kwargs(old(self)@.heap, kwargs),
            ),
    {
        let ghost before = self.heap@;
        let ghost all = tuple_args(before, *args_tuple) + flat(given_kwargs(before, kwargs));
        proof {
            lemma_owns_part(before.entries, optional(kwargs), optional(kwargs));
            lemma_unpacked_live(before, *args_tuple, kwargs);
            lemma_flat_len(given_kwargs(before, kwargs));
        }
        let args: Vec<Value> = self.tuple_items(args_tuple);
        let entries: Vec<DictEntry> = match &kwargs {
            Some(v) => self.dict_entries(v),
            None => Vec::new(),
        };
        proof {
            assert(entries@ =~= given_kwargs(before, kwargs));
        }
        let mut every: Vec<Value> = copy_vec(args.as_slice());
        push_entries(&mut every, &entries);
        let _copies: Vec<Value> = self.heap.clone_values(every.as_slice());
        let ghost copied = self.heap@;
        proof {
            lemma_bumped(before.entries, copied.entries, refs(all));
            assert forall|x: HeapId| #[trigger] outside(copied.entries, x) >= tally(refs(optional(kwargs)), x) + kept(
                x,
            ) by {
                assert(outside(before.entries, x) >= tally(refs(optional(kwargs)), x) + kept(x));
            }
        }
        if let Some(v) = kwargs {
            proof {
                assert(optional(kwargs) =~= seq![v]);
            }
            self.heap.discard(v);
        }
        proof {
            assert(bumped(before.entries, copied.entries, refs(all)));
            assert(unpacked(before, self.heap@, *args_tuple, kwargs));
        }
        match kwargs {
            None => build_args_positional_only(args),
            Some(_) => {
                if entries.len() == 0 {
                    proof {
                        assert(entries@ =~= Seq::empty());
                    }
                    build_args(args, KwargsValues::Empty)
                } else {
                    build_args(args, KwargsValues::Dict(Dict { entries }))
                }
            },
        }
    }

    /// Returns the items of a tuple.
    fn tuple_items(&self, args_tuple: &Value) -> (r: Vec<Value>)
        requires
            self@.heap.wf(),
            is_args_tuple(self@.heap, *args_tuple),
        ensures
            r@ == tuple_args(self@.heap, *args_tuple),
    {
        match *args_tuple {
            Value::Ref(id) => match self.heap.get(id) {
                HeapData::Tuple(tuple) => copy_vec(tuple.as_slice()),
                _ => vstd::pervasive::unreached(),
            },
            _ => vstd::pervasive::unreached(),
        }
    }

    /// Returns the entries of a dictionary.
    fn dict_entries(&self, kwargs_ref: &Value) -> (r: Vec<DictEntry>)
        requires
            self@.heap.wf(),
            is_kwargs_dict(self@.heap, *kwargs_ref),
        ensures
            r@ == dict_args(self@.heap, *kwargs_ref),
    {
        match *kwargs_ref {
            Value::Ref(id) => match self.heap.get(id) {
                HeapData::Dict(dict) => copy_vec(dict.entries.as_slice()),
                _ => vstd::pervasive::unreached(),
            },
            _ => vstd::pervasive::unreached(),
        }
    }
}

} // verus!
