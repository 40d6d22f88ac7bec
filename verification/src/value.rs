//! Runtime values and the heap references they carry.

use crate::builtins::Builtins;
use crate::intern::{BytesId, FunctionId, StringId};
use crate::modules::ModuleFunctions;
use crate::os::OsFunction;
use crate::static_strings::StaticStrings;
use vstd::prelude::*;

verus! {

/// Unique identifier for values stored inside the heap arena.
#[derive(Debug, Clone, Copy, PartialEq, Eq, Structural, Hash)]
pub struct HeapId(pub usize);

impl HeapId {
    /// Returns the raw index value.
    pub fn index(self) -> (r: usize)
        ensures
            r == self.0,
    {
        self.0
    }
}

/// An attribute whose value is computed when it is read.
#[derive(Debug, Clone, Copy, PartialEq, Eq, Structural, Hash)]
pub enum Property {
    /// Reading the attribute asks the host for the result of an OS function.
    Os(OsFunction),
}

/// A Python value: either immediate, or a reference to a heap entry.
///
/// A `Ref` stands for one counted reference. Copying the bits of a value does
/// not change any count; contracts say which counts a function uses up.
#[derive(Debug, Clone, Copy, PartialEq, Eq, Structural, Hash)]
pub enum Value {
    /// A variable that has no value yet.
    Undefined,
    /// Python's `None`.
    PyNone,
    /// `True` or `False`.
    Bool(bool),
    /// An integer that fits in 64 bits.
    Int(i64),
    /// A string of the intern table.
    InternString(StringId),
    /// A bytes literal of the intern table.
    InternBytes(BytesId),
    /// A builtin function, exception type or type.
    Builtin(Builtins),
    /// A function of a builtin module.
    ModuleFunction(ModuleFunctions),
    /// A function of the host, by name.
    ExtFunction(StringId),
    /// A function of the program without defaults or captured variables.
    DefFunction(FunctionId),
    /// A computed attribute.
    Property(Property),
    /// A special form such as `typing.Any`.
    Marker(StaticStrings),
    /// A value that lives on the heap.
    Ref(HeapId),
}

/// A name that is either interned or owned.
#[derive(Debug)]
pub enum EitherStr {
    /// A string of the intern table.
    Interned(StringId),
    /// A string of its own.
    Heap(String),
}

/// Are two names the same, in the same form?
pub open spec fn same_name(a: EitherStr, b: EitherStr) -> bool {
    match (a, b) {
        (EitherStr::Interned(x), EitherStr::Interned(y)) => x == y,
        (EitherStr::Heap(x), EitherStr::Heap(y)) => x@ == y@,
        _ => false,
    }
}

/// Are two lists of names the same, in the same form?
pub open spec fn same_names(a: Seq<EitherStr>, b: Seq<EitherStr>) -> bool {
    a.len() == b.len() && forall|i: int| 0 <= i < a.len() ==> same_name(#[trigger] a[i], b[i])
}

impl EitherStr {
    /// Returns a copy of the name.
    pub fn duplicate(&self) -> (r: EitherStr)
        ensures
            same_name(r, *self),
    {
        match self {
            EitherStr::Interned(id) => EitherStr::Interned(*id),
            EitherStr::Heap(s) => EitherStr::Heap(s.as_str().to_owned()),
        }
    }
}

/// Returns copies of some names.
pub fn duplicate_names(names: &Vec<EitherStr>) -> (r: Vec<EitherStr>)
    ensures
        same_names(r@, names@),
{
    let mut out: Vec<EitherStr> = Vec::with_capacity(names.len());
    let mut i: usize = 0;
    while i < names.len()
        invariant
            i <= names@.len(),
            out@.len() == i,
            forall|k: int| 0 <= k < i ==> same_name(#[trigger] out@[k], names@[k]),
        decreases names.len() - i,
    {
        out.push(names[i].duplicate());
        i = i + 1;
    }
    out
}

/// Is the value a heap reference?
pub open spec fn is_ref(v: Value) -> bool {
    v is Ref
}

/// The heap references among some values, in order.
pub open spec fn refs(vs: Seq<Value>) -> Seq<HeapId>
    decreases vs.len(),
{
    if vs.len() == 0 {
        Seq::empty()
    } else {
        match vs.last() {
            Value::Ref(id) => refs(vs.drop_last()).push(id),
            _ => refs(vs.drop_last()),
        }
    }
}

/// How often `id` occurs in `ids`.
pub open spec fn tally(ids: Seq<HeapId>, id: HeapId) -> nat
    decreases ids.len(),
{
    if ids.len() == 0 {
        0
    } else {
        tally(ids.drop_last(), id) + if ids.last() == id { 1nat } else { 0nat }
    }
}

/// How many references to `id` the values hold.
pub open spec fn holds(vs: Seq<Value>, id: HeapId) -> nat {
    tally(refs(vs), id)
}

/// How many references to `id` one value holds.
pub open spec fn holds1(v: Value, id: HeapId) -> nat {
    if v == Value::Ref(id) { 1 } else { 0 }
}

pub proof fn lemma_tally_push(ids: Seq<HeapId>, x: HeapId, id: HeapId)
    ensures
        tally(ids.push(x), id) == tally(ids, id) + if x == id { 1nat } else { 0nat },
{
    assert(ids.push(x).drop_last() =~= ids);
}

pub proof fn lemma_tally_concat(a: Seq<HeapId>, b: Seq<HeapId>, id: HeapId)
    ensures
        tally(a + b, id) == tally(a, id) + tally(b, id),
    decreases b.len(),
{
    if b.len() == 0 {
        assert(a + b =~= a);
    } else {
        assert((a + b).drop_last() =~= a + b.drop_last());
        lemma_tally_concat(a, b.drop_last(), id);
    }
}

pub proof fn lemma_tally_contains(ids: Seq<HeapId>, i: int)
    requires
        0 <= i < ids.len(),
    ensures
        tally(ids, ids[i]) >= 1,
    decreases ids.len(),
{
    if i < ids.len() - 1 {
        lemma_tally_contains(ids.drop_last(), i);
    }
}

pub proof fn lemma_tally_positive(ids: Seq<HeapId>, id: HeapId)
    requires
        tally(ids, id) >= 1,
    ensures
        ids.contains(id),
    decreases ids.len(),
{
    if ids.last() == id {
        assert(ids[ids.len() - 1] == id);
    } else {
        lemma_tally_positive(ids.drop_last(), id);
        let i = choose|i: int| 0 <= i < ids.drop_last().len() && ids.drop_last()[i] == id;
        assert(ids[i] == id);
    }
}

pub proof fn lemma_refs_push(vs: Seq<Value>, v: Value)
    ensures
        refs(vs.push(v)) == match v {
            Value::Ref(id) => refs(vs).push(id),
            _ => refs(vs),
        },
{
    assert(vs.push(v).drop_last() =~= vs);
}

pub proof fn lemma_refs_concat(a: Seq<Value>, b: Seq<Value>)
    ensures
        refs(a + b) == refs(a) + refs(b),
    decreases b.len(),
{
    if b.len() == 0 {
        assert(a + b =~= a);
        assert(refs(a) + refs(b) =~= refs(a));
    } else {
        assert((a + b).drop_last() =~= a + b.drop_last());
        lemma_refs_concat(a, b.drop_last());
        assert(refs(a + b) =~= refs(a) + refs(b));
    }
}

pub proof fn lemma_holds_push(vs: Seq<Value>, v: Value, id: HeapId)
    ensures
        holds(vs.push(v), id) == holds(vs, id) + holds1(v, id),
{
    lemma_refs_push(vs, v);
    match v {
        Value::Ref(x) => lemma_tally_push(refs(vs), x, id),
        _ => {},
    }
}

pub proof fn lemma_holds_concat(a: Seq<Value>, b: Seq<Value>, id: HeapId)
    ensures
        holds(a + b, id) == holds(a, id) + holds(b, id),
{
    lemma_refs_concat(a, b);
    lemma_tally_concat(refs(a), refs(b), id);
}

pub proof fn lemma_holds_one(v: Value, id: HeapId)
    ensures
        holds(seq![v], id) == holds1(v, id),
{
    assert(seq![v] =~= Seq::<Value>::empty().push(v));
    lemma_holds_push(Seq::empty(), v, id);
}

pub proof fn lemma_holds_two(v: Value, w: Value, id: HeapId)
    ensures
        holds(seq![v, w], id) == holds1(v, id) + holds1(w, id),
{
    lemma_holds_one(v, id);
    assert(seq![v, w] =~= seq![v].push(w));
    lemma_holds_push(seq![v], w, id);
}

/// What a sequence of values holds is what one of them and the others hold.
pub proof fn lemma_holds_update(vs: Seq<Value>, i: int, v: Value, id: HeapId)
    requires
        0 <= i < vs.len(),
    ensures
        holds(vs.update(i, v), id) + holds1(vs[i], id) == holds(vs, id) + holds1(v, id),
{
    let head = vs.take(i);
    let tail = vs.skip(i + 1);
    assert(vs =~= head.push(vs[i]) + tail);
    assert(vs.update(i, v) =~= head.push(v) + tail);
    lemma_holds_concat(head.push(vs[i]), tail, id);
    lemma_holds_concat(head.push(v), tail, id);
    lemma_holds_push(head, vs[i], id);
    lemma_holds_push(head, v, id);
}

pub proof fn lemma_holds_ge(vs: Seq<Value>, i: int, id: HeapId)
    requires
        0 <= i < vs.len(),
    ensures
        holds(vs, id) >= holds1(vs[i], id),
{
    lemma_holds_update(vs, i, Value::PyNone, id);
}

/// Where each value holds what two others hold, all hold what the others hold.
pub proof fn lemma_holds_sum(a: Seq<Value>, b: Seq<Value>, c: Seq<Value>, id: HeapId)
    requires
        a.len() == b.len() == c.len(),
        forall|i: int| 0 <= i < c.len() ==> holds1(#[trigger] c[i], id) == holds1(a[i], id) + holds1(b[i], id),
    ensures
        holds(c, id) == holds(a, id) + holds(b, id),
    decreases c.len(),
{
    if c.len() > 0 {
        let n = c.len() - 1;
        assert forall|i: int| 0 <= i < n implies holds1(#[trigger] c.drop_last()[i], id) == holds1(
            a.drop_last()[i],
            id,
        ) + holds1(b.drop_last()[i], id) by {
            assert(holds1(c[i], id) == holds1(a[i], id) + holds1(b[i], id));
        }
        lemma_holds_sum(a.drop_last(), b.drop_last(), c.drop_last(), id);
        lemma_holds_push(a.drop_last(), a[n], id);
        lemma_holds_push(b.drop_last(), b[n], id);
        lemma_holds_push(c.drop_last(), c[n], id);
        assert(a.drop_last().push(a[n]) =~= a);
        assert(b.drop_last().push(b[n]) =~= b);
        assert(c.drop_last().push(c[n]) =~= c);
        assert(holds1(c[n], id) == holds1(a[n], id) + holds1(b[n], id));
    }
}

/// Does some value hold a heap reference?
pub open spec fn any_ref(vs: Seq<Value>) -> bool {
    exists|i: int| 0 <= i < vs.len() && is_ref(#[trigger] vs[i])
}

pub proof fn lemma_no_refs(vs: Seq<Value>)
    requires
        !any_ref(vs),
    ensures
        refs(vs) == Seq::<HeapId>::empty(),
    decreases vs.len(),
{
    if vs.len() > 0 {
        assert(!is_ref(vs[vs.len() - 1]));
        assert forall|i: int| 0 <= i < vs.drop_last().len() implies !is_ref(#[trigger] vs.drop_last()[i]) by {
            assert(!is_ref(vs[i]));
        }
        lemma_no_refs(vs.drop_last());
    }
}

/// Returns whether any of the values is a heap reference.
pub fn contains_ref(vs: &[Value]) -> (r: bool)
    ensures
        r == any_ref(vs@),
{
    let mut i: usize = 0;
    while i < vs.len()
        invariant
            i <= vs.len(),
            forall|j: int| 0 <= j < i ==> !is_ref(#[trigger] vs@[j]),
        decreases vs.len() - i,
    {
        if let Value::Ref(_) = vs[i] {
            assert(is_ref(vs@[i as int]));
            return true;
        }
        i = i + 1;
    }
    false
}

/// Appends the heap references among the values to a work list.
pub fn push_refs(vs: &[Value], stack: &mut Vec<HeapId>)
    ensures
        final(stack)@ == old(stack)@ + refs(vs@),
{
    let mut i: usize = 0;
    proof {
        assert(vs@.take(0) =~= Seq::empty());
        assert(stack@ =~= old(stack)@ + refs(vs@.take(0)));
    }
    while i < vs.len()
        invariant
            i <= vs.len(),
            stack@ == old(stack)@ + refs(vs@.take(i as int)),
        decreases vs.len() - i,
    {
        proof {
            assert(vs@.take(i + 1) =~= vs@.take(i as int).push(vs@[i as int]));
            lemma_refs_push(vs@.take(i as int), vs@[i as int]);
        }
        if let Value::Ref(id) = vs[i] {
            stack.push(id);
        }
        proof {
            assert(stack@ =~= old(stack)@ + refs(vs@.take(i + 1)));
        }
        i = i + 1;
    }
    proof {
        assert(vs@.take(vs@.len() as int) =~= vs@);
    }
}

/// Appends one value's heap reference, where it is one, to a work list.
pub fn push_ref(v: Value, stack: &mut Vec<HeapId>)
    ensures
        final(stack)@ == old(stack)@ + refs(seq![v]),
{
    proof {
        assert(seq![v] =~= Seq::<Value>::empty().push(v));
        lemma_refs_push(Seq::empty(), v);
    }
    if let Value::Ref(id) = v {
        stack.push(id);
    }
    proof {
        assert(stack@ =~= old(stack)@ + refs(seq![v]));
    }
}

} // verus!
