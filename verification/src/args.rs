//! The arguments of a call.

use crate::equality::{Scene, scene};
use crate::exceptions::{ErrorView, RunError};
use crate::heap::{Heap, HeapModel};
use crate::heap_model::{Entries, covers, kept, outside, readable, sound};
use crate::heap_ops::{gave_up, lemma_covers_part};
use crate::intern::{Interns, StringId};
use crate::resource::ResourceTracker;
use crate::types::mappings::{Dict, DictEntry, flat, lemma_flat_push};
use crate::value::{HeapId, Value, holds, refs, tally};
use vstd::prelude::*;

verus! {

/// The keyword arguments of a call.
#[derive(Debug)]
pub enum KwargsValues {
    /// None.
    Empty,
    /// Names from the source text.
    Inline(Vec<(StringId, Value)>),
    /// The entries of a mapping that was given with `**`.
    Dict(Dict),
}

/// The arguments of a call.
#[derive(Debug)]
pub enum ArgValues {
    Empty,
    One(Value),
    Two(Value, Value),
    Kwargs(KwargsValues),
    ArgsKargs { args: Vec<Value>, kwargs: KwargsValues },
}

/// Names with values, as entries whose keys are interned strings.
pub open spec fn inline_entries(pairs: Seq<(StringId, Value)>) -> Seq<DictEntry> {
    pairs.map_values(|p: (StringId, Value)| DictEntry { key: Value::InternString(p.0), value: p.1 })
}

impl KwargsValues {
    /// The keywords and their values, in order.
    pub open spec fn entries(self) -> Seq<DictEntry> {
        match self {
            KwargsValues::Empty => Seq::empty(),
            KwargsValues::Inline(pairs) => inline_entries(pairs@),
            KwargsValues::Dict(d) => d.entries@,
        }
    }

    /// Returns the keywords and their values, in order.
    pub fn into_entries(self) -> (r: Vec<DictEntry>)
        ensures
            r@ == self.entries(),
    {
        match self {
            KwargsValues::Empty => {
                let r: Vec<DictEntry> = Vec::new();
                proof {
                    assert(r@ =~= Seq::empty());
                }
                r
            },
            KwargsValues::Inline(pairs) => {
                let mut r: Vec<DictEntry> = Vec::with_capacity(pairs.len());
                let mut i: usize = 0;
                while i < pairs.len()
                    invariant
                        i <= pairs@.len(),
                        r@.len() == i,
                        forall|j: int| 0 <= j < i ==> #[trigger] r@[j] == inline_entries(pairs@)[j],
                    decreases pairs.len() - i,
                {
                    r.push(DictEntry { key: Value::InternString(pairs[i].0), value: pairs[i].1 });
                    i = i + 1;
                }
                proof {
                    assert(r@ =~= inline_entries(pairs@));
                }
                r
            },
            KwargsValues::Dict(d) => d.entries,
        }
    }
}

impl ArgValues {
    /// The positional arguments, in order.
    pub open spec fn positional(self) -> Seq<Value> {
        match self {
            ArgValues::Empty => Seq::empty(),
            ArgValues::One(a) => seq![a],
            ArgValues::Two(a, b) => seq![a, b],
            ArgValues::Kwargs(_) => Seq::empty(),
            ArgValues::ArgsKargs { args, .. } => args@,
        }
    }

    /// The keywords and their values, in order.
    pub open spec fn keywords(self) -> Seq<DictEntry> {
        match self {
            ArgValues::Kwargs(kwargs) => kwargs.entries(),
            ArgValues::ArgsKargs { kwargs, .. } => kwargs.entries(),
            _ => Seq::empty(),
        }
    }

    /// All values that the arguments hold.
    pub open spec fn values(self) -> Seq<Value> {
        self.positional() + flat(self.keywords())
    }

    /// Are `r` these arguments with one more in front?
    pub open spec fn behind(self, first: Value, r: ArgValues) -> bool {
        &&& r.positional() == seq![first] + self.positional()
        &&& r.keywords() == self.keywords()
        &&& match self {
            ArgValues::Empty => r is One,
            ArgValues::One(_) => r is Two,
            ArgValues::Two(..) => r matches ArgValues::ArgsKargs { kwargs, .. } && kwargs is Empty,
            ArgValues::Kwargs(own) => r matches ArgValues::ArgsKargs { kwargs, .. } && kwargs == own,
            ArgValues::ArgsKargs { kwargs: own, .. } => r matches ArgValues::ArgsKargs { kwargs, .. } && kwargs == own,
        }
    }

    /// Puts one more positional argument in front.
    pub fn prepend(self, first: Value) -> (r: ArgValues)
        ensures
            self.behind(first, r),
    {
        let r: ArgValues = match self {
            ArgValues::Empty => ArgValues::One(first),
            ArgValues::One(a) => ArgValues::Two(first, a),
            ArgValues::Two(a, b) => ArgValues::ArgsKargs { args: vec![first, a, b], kwargs: KwargsValues::Empty },
            ArgValues::Kwargs(kwargs) => ArgValues::ArgsKargs { args: vec![first], kwargs },
            ArgValues::ArgsKargs { args, kwargs } => {
                let mut args: Vec<Value> = args;
                args.insert(0, first);
                ArgValues::ArgsKargs { args, kwargs }
            },
        };
        proof {
            assert(r.positional() =~= seq![first] + self.positional());
            assert(r.keywords() =~= self.keywords());
        }
        r
    }

    /// Takes the arguments apart.
    pub fn into_parts(self) -> (r: (Vec<Value>, Vec<DictEntry>))
        ensures
            r.0@ == self.positional(),
            r.1@ == self.keywords(),
    {
        let none: Vec<DictEntry> = Vec::new();
        proof {
            assert(none@ =~= Seq::empty());
        }
        match self {
            ArgValues::Empty => {
                let pos: Vec<Value> = Vec::new();
                proof {
                    assert(pos@ =~= Seq::empty());
                }
                (pos, none)
            },
            ArgValues::One(a) => {
                let pos: Vec<Value> = vec![a];
                proof {
                    assert(pos@ =~= seq![a]);
                }
                (pos, none)
            },
            ArgValues::Two(a, b) => {
                let pos: Vec<Value> = vec![a, b];
                proof {
                    assert(pos@ =~= seq![a, b]);
                }
                (pos, none)
            },
            ArgValues::Kwargs(kwargs) => {
                let pos: Vec<Value> = Vec::new();
                proof {
                    assert(pos@ =~= Seq::empty());
                }
                (pos, kwargs.into_entries())
            },
            ArgValues::ArgsKargs { args, kwargs } => (args, kwargs.into_entries()),
        }
    }

    /// Returns all values that the arguments hold.
    pub fn into_values(self) -> (r: Vec<Value>)
        ensures
            r@ == self.values(),
    {
        let (mut pos, kws): (Vec<Value>, Vec<DictEntry>) = self.into_parts();
        push_entries(&mut pos, &kws);
        pos
    }
}

/// Appends keys and values to some values.
pub fn push_entries(out: &mut Vec<Value>, kws: &Vec<DictEntry>)
    ensures
        final(out)@ == old(out)@ + flat(kws@),
{
    let mut i: usize = 0;
    proof {
        assert(kws@.take(0) =~= Seq::empty());
        assert(out@ =~= old(out)@ + flat(kws@.take(0)));
    }
    while i < kws.len()
        invariant
            i <= kws@.len(),
            out@ == old(out)@ + flat(kws@.take(i as int)),
        decreases kws.len() - i,
    {
        let e: DictEntry = kws[i];
        proof {
            assert(kws@.take(i + 1) =~= kws@.take(i as int).push(e));
            lemma_flat_push(kws@.take(i as int), e);
        }
        out.push(e.key);
        out.push(e.value);
        proof {
            assert(out@ =~= old(out)@ + flat(kws@.take(i + 1)));
        }
        i = i + 1;
    }
    proof {
        assert(kws@.take(kws@.len() as int) =~= kws@);
    }
}

/// The arguments as entries of a mapping and a sequence need not be told apart
/// where only what they hold matters.
pub open spec fn arg_values(pos: Seq<Value>, kws: Seq<DictEntry>) -> Seq<Value> {
    pos + flat(kws)
}

/// Are at least those references still counted from outside that were not among `given`?
pub open spec fn spares_others(before: Entries, after: Entries, given: Seq<Value>) -> bool {
    forall|x: HeapId| #[trigger] outside(after, x) >= outside(before, x) - holds(given, x)
}

/// Are exactly the references in `given` gone?
pub open spec fn gives_back(before: Entries, after: Entries, given: Seq<Value>) -> bool {
    forall|x: HeapId| #[trigger] outside(after, x) == outside(before, x) - holds(given, x)
}

/// Giving up all arguments takes away exactly what they hold.
pub proof fn lemma_given_back<T: ResourceTracker>(a: HeapModel<T>, b: HeapModel<T>, all: Seq<Value>)
    requires
        a.gave_up(b, refs(all)),
    ensures
        gives_back(a.entries, b.entries, all),
        spares_others(a.entries, b.entries, all),
{
    assert forall|x: HeapId| #[trigger] outside(b.entries, x) == outside(a.entries, x) - holds(all, x) by {
        assert(outside(b.entries, x) == outside(a.entries, x) - tally(refs(all), x));
    }
}

/// Does the heap count the references that the values hold?
pub open spec fn owns(e: Entries, vs: Seq<Value>) -> bool {
    covers(e, refs(vs))
}

/// Who owns some values owns fewer of them.
pub proof fn lemma_owns_part(e: Entries, all: Seq<Value>, some: Seq<Value>)
    requires
        owns(e, all),
        forall|x: HeapId| #[trigger] holds(some, x) <= holds(all, x),
    ensures
        owns(e, some),
        sound(e),
{
    assert forall|x: HeapId| #[trigger] tally(refs(some), x) <= tally(refs(all), x) by {
        assert(holds(some, x) <= holds(all, x));
    }
    lemma_covers_part(e, refs(all), refs(some));
}

impl ArgValues {
    /// Gives up all arguments.
    pub fn drop_with_heap<T: ResourceTracker>(self, heap: &mut Heap<T>)
        requires
            old(heap)@.wf(),
            owns(old(heap)@.entries, self.values()),
        ensures
            old(heap)@.gave_up(final(heap)@, refs(self.values())),
    {
        let all: Vec<Value> = self.into_values();
        heap.discard_all(all.as_slice());
    }

    /// Returns the single argument of a function that takes one.
    ///
    /// On an error all arguments are given up.
    pub fn get_one_arg<T: ResourceTracker>(self, name: &str, heap: &mut Heap<T>) -> (r: Result<Value, RunError>)
        requires
            old(heap)@.wf(),
            owns(old(heap)@.entries, self.values()),
        ensures
            match r {
                Ok(v) => {
                    &&& self.keywords().len() == 0
                    &&& self.positional() == seq![v]
                    &&& final(heap)@ == old(heap)@
                },
                Err(e) => {
                    &&& e@ == arity_error(name@, 1, 1, self.positional().len(), self.keywords().len())
                    &&& self.keywords().len() > 0 || self.positional().len() != 1
                    &&& old(heap)@.gave_up(final(heap)@, refs(self.values()))
                },
            },
    {
        let (pos, kws): (Vec<Value>, Vec<DictEntry>) = self.into_parts();
        if kws.len() == 0 && pos.len() == 1 {
            proof {
                assert(pos@ =~= seq![pos@[0]]);
            }
            return Ok(pos[0]);
        }
        Err(refuse(pos, kws, name, 1, 1, heap))
    }

    /// Returns the one or two arguments of a function that takes one or two.
    ///
    /// On an error all arguments are given up.
    pub fn get_one_two_args<T: ResourceTracker>(self, name: &str, heap: &mut Heap<T>) -> (r: Result<
        (Value, Option<Value>),
        RunError,
    >)
        requires
            old(heap)@.wf(),
            owns(old(heap)@.entries, self.values()),
        ensures
            match r {
                Ok((a, b)) => {
                    &&& self.keywords().len() == 0
                    &&& self.positional() == (match b {
                        Some(b) => seq![a, b],
                        None => seq![a],
                    })
                    &&& final(heap)@ == old(heap)@
                },
                Err(e) => {
                    &&& e@ == arity_error(name@, 1, 2, self.positional().len(), self.keywords().len())
                    &&& self.keywords().len() > 0 || self.positional().len() == 0 || self.positional().len() > 2
                    &&& old(heap)@.gave_up(final(heap)@, refs(self.values()))
                },
            },
    {
        let (pos, kws): (Vec<Value>, Vec<DictEntry>) = self.into_parts();
        if kws.len() == 0 && pos.len() == 1 {
            proof {
                assert(pos@ =~= seq![pos@[0]]);
            }
            return Ok((pos[0], None));
        }
        if kws.len() == 0 && pos.len() == 2 {
            proof {
                assert(pos@ =~= seq![pos@[0], pos@[1]]);
            }
            return Ok((pos[0], Some(pos[1])));
        }
        Err(refuse(pos, kws, name, 1, 2, heap))
    }

    /// Returns the positional arguments of a function that takes no keywords.
    ///
    /// On an error all arguments are given up.
    pub fn into_pos_only<T: ResourceTracker>(self, name: &str, heap: &mut Heap<T>) -> (r: Result<Vec<Value>, RunError>)
        requires
            old(heap)@.wf(),
            owns(old(heap)@.entries, self.values()),
        ensures
            match r {
                Ok(pos) => {
                    &&& self.keywords().len() == 0
                    &&& pos@ == self.positional()
                    &&& final(heap)@ == old(heap)@
                },
                Err(e) => {
                    &&& e@ == (ErrorView::NoKeywords { name: name@ })
                    &&& self.keywords().len() > 0
                    &&& old(heap)@.gave_up(final(heap)@, refs(self.values()))
                },
            },
    {
        let (pos, kws): (Vec<Value>, Vec<DictEntry>) = self.into_parts();
        if kws.len() == 0 {
            return Ok(pos);
        }
        Err(refuse(pos, kws, name, 0, 0, heap))
    }
}

/// The error for arguments that a function of `min` to `max` positional
/// parameters does not take.
pub open spec fn arity_error(name: Seq<char>, min: usize, max: usize, given: nat, keywords: nat) -> ErrorView {
    if keywords > 0 {
        ErrorView::NoKeywords { name }
    } else {
        ErrorView::WrongArgCount { name, min, max, given: given as usize }
    }
}

/// Gives up all arguments and returns the error for their number.
fn refuse<T: ResourceTracker>(
    pos: Vec<Value>,
    kws: Vec<DictEntry>,
    name: &str,
    min: usize,
    max: usize,
    heap: &mut Heap<T>,
) -> (r: RunError)
    requires
        old(heap)@.wf(),
        owns(old(heap)@.entries, arg_values(pos@, kws@)),
    ensures
        r@ == arity_error(name@, min, max, pos@.len(), kws@.len()),
        old(heap)@.gave_up(final(heap)@, refs(arg_values(pos@, kws@))),
{
    let given: usize = pos.len();
    let mut all: Vec<Value> = pos;
    push_entries(&mut all, &kws);
    heap.discard_all(all.as_slice());
    if kws.len() > 0 {
        RunError::NoKeywords { name: name.to_owned() }
    } else {
        RunError::WrongArgCount { name: name.to_owned(), min, max, given }
    }
}

impl Value {
    /// Returns whether a value is a string.
    pub fn is_str<T: ResourceTracker>(self, heap: &Heap<T>, interns: &Interns) -> (r: bool)
        requires
            self matches Value::Ref(id) ==> readable(heap@.entries, id),
        ensures
            r == (scene(heap@, *interns).text(self) is Some),
    {
        match self {
            Value::InternString(_) => true,
            Value::Ref(id) => matches!(heap.get(id), crate::heap_data::HeapData::Str(_)),
            _ => false,
        }
    }
}

/// The text of a value that has to be a string.
pub open spec fn expect_text<T: ResourceTracker>(s: Scene<T>, v: Value) -> Result<Seq<char>, ErrorView> {
    match s.text(v) {
        Some(t) => Ok(t),
        None => Err(ErrorView::ExpectedStr(s.type_of(v))),
    }
}

/// Returns the text of a value that has to be a string.
pub fn value_to_str<T: ResourceTracker>(v: Value, heap: &Heap<T>, interns: &Interns) -> (r: Result<String, RunError>)
    requires
        scene(heap@, *interns).has(v),
        v matches Value::Ref(id) ==> readable(heap@.entries, id),
    ensures
        match r {
            Ok(t) => expect_text(scene(heap@, *interns), v) == Ok::<Seq<char>, ErrorView>(t@),
            Err(e) => expect_text(scene(heap@, *interns), v) == Err::<Seq<char>, ErrorView>(e@),
        },
{
    match v.as_text(heap, interns) {
        Some(t) => Ok(t.to_owned()),
        None => Err(RunError::ExpectedStr(v.py_type(heap, interns))),
    }
}

/// A heap that counts what some values hold is sound.
pub proof fn lemma_owned_sound<T: ResourceTracker>(m: HeapModel<T>, all: Seq<Value>)
    requires
        owns(m.entries, all),
    ensures
        sound(m.entries),
{
    assert forall|x: HeapId| #[trigger] outside(m.entries, x) >= kept(x) by {
        assert(outside(m.entries, x) >= tally(refs(all), x) + kept(x));
    }
}

} // verus!
