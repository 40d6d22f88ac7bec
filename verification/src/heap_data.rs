//! What a heap entry can hold.

use crate::asyncio::{Coroutine, GatherFuture, GatherItem, coroutine_ids, present};
use crate::exceptions::SimpleException;
use crate::intern::FunctionId;
use crate::types::long_int::LongInt;
use crate::types::mappings::{Dataclass, Dict, FrozenSet, PySet};
use crate::types::module::Module;
use crate::types::namedtuple_factory::NamedTupleFactory;
use crate::types::scalars::{Class, MontyIter, Path, Range, ReMatch, RePattern, Slice};
use crate::types::sequences::{Bytes, List, NamedTuple, Str, Tuple};
use crate::value::{
    HeapId, Value, any_ref, contains_ref, is_ref, lemma_no_refs, lemma_refs_push, push_ref, push_refs, refs,
};
use vstd::prelude::*;
use vstd::string::StringSliceAdditionalSpecFns;

verus! {

/// Thin wrapper around `Value` which is used in the `Cell` variant of [`HeapData`].
///
/// The inner value is the cell's mutable payload.
#[derive(Debug, Clone, Copy, PartialEq, Eq, Structural)]
pub struct CellValue(pub Value);

/// A closure: a function that captures variables from enclosing scopes.
///
/// Contains a reference to the function definition, a vector of captured cell HeapIds,
/// and evaluated default values (if any). When the closure is called, these cells are
/// passed to the RunFrame for variable access. When the closure is dropped, we must
/// decrement the ref count on each captured cell and each default value.
#[derive(Debug)]
pub struct Closure {
    /// The function definition being captured.
    pub func_id: FunctionId,
    /// Captured cells from enclosing scopes.
    pub cells: Vec<HeapId>,
    /// Evaluated default parameter values (if any).
    pub defaults: Vec<Value>,
}

/// A function with evaluated default parameter values (non-closure).
///
/// Contains a reference to the function definition and the evaluated default values.
/// When the function is called, defaults are cloned for missing optional parameters.
/// When dropped, we must decrement the ref count on each default value.
#[derive(Debug)]
pub struct FunctionDefaults {
    /// The function definition being captured.
    pub func_id: FunctionId,
    /// Evaluated default parameter values (if any).
    pub defaults: Vec<Value>,
}

/// HeapData captures every runtime value that must live in the arena.
pub enum HeapData {
    Str(Str),
    Bytes(Bytes),
    List(List),
    Tuple(Tuple),
    NamedTuple(NamedTuple),
    NamedTupleFactory(NamedTupleFactory),
    Dict(Dict),
    PySet(PySet),
    FrozenSet(FrozenSet),
    Closure(Closure),
    FunctionDefaults(FunctionDefaults),
    /// A cell wrapping a single mutable value for closure support.
    ///
    /// Cells enable nonlocal variable access by providing a heap-allocated
    /// container that can be shared between a function and its nested functions.
    /// Both the outer function and inner function hold references to the same
    /// cell, allowing modifications to propagate across scope boundaries.
    Cell(CellValue),
    /// A range object (e.g., `range(10)` or `range(1, 10, 2)`).
    ///
    /// Stored on the heap to keep `Value` enum small (16 bytes). Range objects
    /// are immutable and hashable.
    Range(Range),
    /// A slice object (e.g., `slice(1, 10, 2)` or from `x[1:10:2]`).
    ///
    /// Stored on the heap to keep `Value` enum small. Slice objects represent
    /// start:stop:step indices for sequence slicing operations.
    Slice(Slice),
    /// An exception instance (e.g., `ValueError('message')`).
    ///
    /// Stored on the heap to keep `Value` enum small (16 bytes). Exceptions
    /// are created when exception types are called or when `raise` is executed.
    Exception(SimpleException),
    /// A dataclass instance with fields and method references.
    ///
    /// Contains a class name, a Dict of field name -> value mappings, and a set
    /// of method names that trigger external function calls when invoked.
    Dataclass(Dataclass),
    /// An iterator for for-loop iteration and the `iter()` type constructor.
    ///
    /// Created by the `GetIter` opcode or `iter()` builtin, advanced by `ForIter`.
    /// Stores iteration state for lists, tuples, strings, ranges, dicts, and sets.
    Iter(MontyIter),
    /// An arbitrary precision integer (LongInt).
    ///
    /// Stored on the heap to keep `Value` enum at 16 bytes. Python has one `int` type,
    /// so LongInt is an implementation detail - we use `Value::Int(i64)` for performance
    /// when values fit, and promote to LongInt on overflow. When LongInt results fit back
    /// in i64, they are demoted back to `Value::Int` for performance.
    LongInt(LongInt),
    /// A skeletal user-defined class object from `class Foo: pass`.
    Class(Class),
    /// A Python module (e.g., `sys`, `typing`).
    ///
    /// Modules have a name and a dictionary of attributes. They are created by
    /// import statements and can have refs to other heap values in their attributes.
    Module(Module),
    /// A coroutine object from an async function call.
    ///
    /// Contains pre-bound arguments and captured cells, ready to be awaited.
    /// When awaited, a new frame is pushed using the stored namespace.
    Coroutine(Coroutine),
    /// A gather() result tracking multiple coroutines/tasks.
    ///
    /// Created by asyncio.gather() and spawns tasks when awaited.
    GatherFuture(GatherFuture),
    /// A filesystem path from `pathlib.Path`.
    ///
    /// Stored on the heap to provide Python-compatible path operations.
    /// Pure methods (name, parent, etc.) are handled directly by the VM.
    /// I/O methods (exists, read_text, etc.) yield external function calls.
    Path(Path),
    /// A compiled regex pattern from `re.compile()`.
    ///
    /// Contains the original pattern string and flags.
    /// Leaf type: no heap references, not GC-tracked.
    RePattern(Box<RePattern>),
    /// A regex match result from a successful regex operation.
    ///
    /// Contains the matched text, capture groups, positions, and input string.
    /// Leaf type: no heap references, not GC-tracked.
    ReMatch(ReMatch),
    /// Reference to an external function whose name was not found in the intern table.
    ///
    /// Created when the host resolves a `NameLookup` to a callable whose name does not
    /// match any interned string (e.g., the host returns a function with a different
    /// `__name__` than the variable it was assigned to). When called, the VM yields
    /// an external call with an `EitherStr::Heap` containing this name.
    ExtFunction(String),
}

/// Mutable reference to `HeapData` inner values
pub enum HeapDataMut<'a> {
    Str(&'a mut Str),
    Bytes(&'a mut Bytes),
    List(&'a mut List),
    Tuple(&'a mut Tuple),
    NamedTuple(&'a mut NamedTuple),
    NamedTupleFactory(&'a mut NamedTupleFactory),
    Dict(&'a mut Dict),
    PySet(&'a mut PySet),
    FrozenSet(&'a mut FrozenSet),
    Closure(&'a mut Closure),
    FunctionDefaults(&'a mut FunctionDefaults),
    Cell(&'a mut CellValue),
    Range(&'a mut Range),
    Slice(&'a mut Slice),
    Exception(&'a mut SimpleException),
    Dataclass(&'a mut Dataclass),
    Iter(&'a mut MontyIter),
    LongInt(&'a mut LongInt),
    Class(&'a mut Class),
    Module(&'a mut Module),
    Coroutine(&'a mut Coroutine),
    GatherFuture(&'a mut GatherFuture),
    Path(&'a mut Path),
    ReMatch(&'a mut ReMatch),
    RePattern(&'a mut RePattern),
    ExtFunction(&'a mut String),
}

/// Shared reference to `HeapData` inner values
///
/// What [`HeapData`] and [`HeapDataMut`] have in common is read through it.
#[derive(Clone, Copy)]
pub enum HeapDataRef<'a> {
    Str(&'a Str),
    Bytes(&'a Bytes),
    List(&'a List),
    Tuple(&'a Tuple),
    NamedTuple(&'a NamedTuple),
    NamedTupleFactory(&'a NamedTupleFactory),
    Dict(&'a Dict),
    PySet(&'a PySet),
    FrozenSet(&'a FrozenSet),
    Closure(&'a Closure),
    FunctionDefaults(&'a FunctionDefaults),
    Cell(&'a CellValue),
    Range(&'a Range),
    Slice(&'a Slice),
    Exception(&'a SimpleException),
    Dataclass(&'a Dataclass),
    Iter(&'a MontyIter),
    LongInt(&'a LongInt),
    Class(&'a Class),
    Module(&'a Module),
    Coroutine(&'a Coroutine),
    GatherFuture(&'a GatherFuture),
    Path(&'a Path),
    ReMatch(&'a ReMatch),
    RePattern(&'a RePattern),
    ExtFunction(&'a String),
}

/// The heap references that a payload holds, in the order in which it gives them up.
pub open spec fn child_ids(data: HeapData) -> Seq<HeapId> {
    match data {
        HeapData::List(l) => refs(l.items@),
        HeapData::Tuple(t) => refs(t@),
        HeapData::NamedTuple(nt) => refs(nt.items@),
        HeapData::NamedTupleFactory(f) => if f.contains_refs {
            refs(f.defaults@)
        } else {
            Seq::empty()
        },
        HeapData::Dict(d) => refs(d.flat()),
        HeapData::PySet(s) => refs(s.storage.items@),
        HeapData::FrozenSet(s) => refs(s.storage.items@),
        HeapData::Closure(c) => c.cells@ + refs(c.defaults@),
        HeapData::FunctionDefaults(fd) => refs(fd.defaults@),
        HeapData::Cell(c) => refs(seq![c.0]),
        HeapData::Dataclass(dc) => refs(dc.attrs.flat()),
        HeapData::Iter(it) => refs(seq![it.value]),
        HeapData::Module(m) => refs(m.attrs.flat()),
        HeapData::Coroutine(c) => c.frame_cells@ + refs(c.namespace@),
        HeapData::GatherFuture(g) => coroutine_ids(g.items@) + refs(present(g.results@)),
        _ => Seq::empty(),
    }
}

/// The number that tells payloads of one kind from those of another.
pub open spec fn kind_tag(data: HeapData) -> u64 {
    match data {
        HeapData::Str(_) => 0,
        HeapData::Bytes(_) => 1,
        HeapData::List(_) => 2,
        HeapData::Tuple(_) => 3,
        HeapData::NamedTuple(_) => 4,
        HeapData::NamedTupleFactory(_) => 5,
        HeapData::Dict(_) => 6,
        HeapData::PySet(_) => 7,
        HeapData::FrozenSet(_) => 8,
        HeapData::Closure(_) => 9,
        HeapData::FunctionDefaults(_) => 10,
        HeapData::Cell(_) => 11,
        HeapData::Range(_) => 12,
        HeapData::Slice(_) => 13,
        HeapData::Exception(_) => 14,
        HeapData::Dataclass(_) => 15,
        HeapData::Iter(_) => 16,
        HeapData::LongInt(_) => 17,
        HeapData::Class(_) => 18,
        HeapData::Module(_) => 19,
        HeapData::Coroutine(_) => 20,
        HeapData::GatherFuture(_) => 21,
        HeapData::Path(_) => 22,
        HeapData::RePattern(_) => 23,
        HeapData::ReMatch(_) => 24,
        HeapData::ExtFunction(_) => 25,
    }
}

impl<'a> HeapDataRef<'a> {
    /// The payload that the reference points to.
    pub open spec fn data(self) -> HeapData {
        match self {
            HeapDataRef::Str(x) => HeapData::Str(*x),
            HeapDataRef::Bytes(x) => HeapData::Bytes(*x),
            HeapDataRef::List(x) => HeapData::List(*x),
            HeapDataRef::Tuple(x) => HeapData::Tuple(*x),
            HeapDataRef::NamedTuple(x) => HeapData::NamedTuple(*x),
            HeapDataRef::NamedTupleFactory(x) => HeapData::NamedTupleFactory(*x),
            HeapDataRef::Dict(x) => HeapData::Dict(*x),
            HeapDataRef::PySet(x) => HeapData::PySet(*x),
            HeapDataRef::FrozenSet(x) => HeapData::FrozenSet(*x),
            HeapDataRef::Closure(x) => HeapData::Closure(*x),
            HeapDataRef::FunctionDefaults(x) => HeapData::FunctionDefaults(*x),
            HeapDataRef::Cell(x) => HeapData::Cell(*x),
            HeapDataRef::Range(x) => HeapData::Range(*x),
            HeapDataRef::Slice(x) => HeapData::Slice(*x),
            HeapDataRef::Exception(x) => HeapData::Exception(*x),
            HeapDataRef::Dataclass(x) => HeapData::Dataclass(*x),
            HeapDataRef::Iter(x) => HeapData::Iter(*x),
            HeapDataRef::LongInt(x) => HeapData::LongInt(*x),
            HeapDataRef::Class(x) => HeapData::Class(*x),
            HeapDataRef::Module(x) => HeapData::Module(*x),
            HeapDataRef::Coroutine(x) => HeapData::Coroutine(*x),
            HeapDataRef::GatherFuture(x) => HeapData::GatherFuture(*x),
            HeapDataRef::Path(x) => HeapData::Path(*x),
            HeapDataRef::ReMatch(x) => HeapData::ReMatch(*x),
            HeapDataRef::RePattern(x) => HeapData::RePattern(Box::new(*x)),
            HeapDataRef::ExtFunction(x) => HeapData::ExtFunction(*x),
        }
    }
}

impl<'a> HeapDataMut<'a> {
    /// The payload that the reference points to.
    pub open spec fn data(self) -> HeapData {
        match self {
            HeapDataMut::Str(x) => HeapData::Str(*x),
            HeapDataMut::Bytes(x) => HeapData::Bytes(*x),
            HeapDataMut::List(x) => HeapData::List(*x),
            HeapDataMut::Tuple(x) => HeapData::Tuple(*x),
            HeapDataMut::NamedTuple(x) => HeapData::NamedTuple(*x),
            HeapDataMut::NamedTupleFactory(x) => HeapData::NamedTupleFactory(*x),
            HeapDataMut::Dict(x) => HeapData::Dict(*x),
            HeapDataMut::PySet(x) => HeapData::PySet(*x),
            HeapDataMut::FrozenSet(x) => HeapData::FrozenSet(*x),
            HeapDataMut::Closure(x) => HeapData::Closure(*x),
            HeapDataMut::FunctionDefaults(x) => HeapData::FunctionDefaults(*x),
            HeapDataMut::Cell(x) => HeapData::Cell(*x),
            HeapDataMut::Range(x) => HeapData::Range(*x),
            HeapDataMut::Slice(x) => HeapData::Slice(*x),
            HeapDataMut::Exception(x) => HeapData::Exception(*x),
            HeapDataMut::Dataclass(x) => HeapData::Dataclass(*x),
            HeapDataMut::Iter(x) => HeapData::Iter(*x),
            HeapDataMut::LongInt(x) => HeapData::LongInt(*x),
            HeapDataMut::Class(x) => HeapData::Class(*x),
            HeapDataMut::Module(x) => HeapData::Module(*x),
            HeapDataMut::Coroutine(x) => HeapData::Coroutine(*x),
            HeapDataMut::GatherFuture(x) => HeapData::GatherFuture(*x),
            HeapDataMut::Path(x) => HeapData::Path(*x),
            HeapDataMut::ReMatch(x) => HeapData::ReMatch(*x),
            HeapDataMut::RePattern(x) => HeapData::RePattern(Box::new(*x)),
            HeapDataMut::ExtFunction(x) => HeapData::ExtFunction(*x),
        }
    }

    /// Returns a shared reference to the payload.
    pub fn as_ref(&self) -> (r: HeapDataRef<'_>)
        ensures
            r.data() == self.data(),
    {
        match self {
            HeapDataMut::Str(x) => HeapDataRef::Str(&**x),
            HeapDataMut::Bytes(x) => HeapDataRef::Bytes(&**x),
            HeapDataMut::List(x) => HeapDataRef::List(&**x),
            HeapDataMut::Tuple(x) => HeapDataRef::Tuple(&**x),
            HeapDataMut::NamedTuple(x) => HeapDataRef::NamedTuple(&**x),
            HeapDataMut::NamedTupleFactory(x) => HeapDataRef::NamedTupleFactory(&**x),
            HeapDataMut::Dict(x) => HeapDataRef::Dict(&**x),
            HeapDataMut::PySet(x) => HeapDataRef::PySet(&**x),
            HeapDataMut::FrozenSet(x) => HeapDataRef::FrozenSet(&**x),
            HeapDataMut::Closure(x) => HeapDataRef::Closure(&**x),
            HeapDataMut::FunctionDefaults(x) => HeapDataRef::FunctionDefaults(&**x),
            HeapDataMut::Cell(x) => HeapDataRef::Cell(&**x),
            HeapDataMut::Range(x) => HeapDataRef::Range(&**x),
            HeapDataMut::Slice(x) => HeapDataRef::Slice(&**x),
            HeapDataMut::Exception(x) => HeapDataRef::Exception(&**x),
            HeapDataMut::Dataclass(x) => HeapDataRef::Dataclass(&**x),
            HeapDataMut::Iter(x) => HeapDataRef::Iter(&**x),
            HeapDataMut::LongInt(x) => HeapDataRef::LongInt(&**x),
            HeapDataMut::Class(x) => HeapDataRef::Class(&**x),
            HeapDataMut::Module(x) => HeapDataRef::Module(&**x),
            HeapDataMut::Coroutine(x) => HeapDataRef::Coroutine(&**x),
            HeapDataMut::GatherFuture(x) => HeapDataRef::GatherFuture(&**x),
            HeapDataMut::Path(x) => HeapDataRef::Path(&**x),
            HeapDataMut::ReMatch(x) => HeapDataRef::ReMatch(&**x),
            HeapDataMut::RePattern(x) => HeapDataRef::RePattern(&**x),
            HeapDataMut::ExtFunction(x) => HeapDataRef::ExtFunction(&**x),
        }
    }
}

impl HeapData {
    /// Returns a shared reference to the payload.
    pub fn as_ref(&self) -> (r: HeapDataRef<'_>)
        ensures
            r.data() == *self,
    {
        match self {
            HeapData::Str(x) => HeapDataRef::Str(x),
            HeapData::Bytes(x) => HeapDataRef::Bytes(x),
            HeapData::List(x) => HeapDataRef::List(x),
            HeapData::Tuple(x) => HeapDataRef::Tuple(x),
            HeapData::NamedTuple(x) => HeapDataRef::NamedTuple(x),
            HeapData::NamedTupleFactory(x) => HeapDataRef::NamedTupleFactory(x),
            HeapData::Dict(x) => HeapDataRef::Dict(x),
            HeapData::PySet(x) => HeapDataRef::PySet(x),
            HeapData::FrozenSet(x) => HeapDataRef::FrozenSet(x),
            HeapData::Closure(x) => HeapDataRef::Closure(x),
            HeapData::FunctionDefaults(x) => HeapDataRef::FunctionDefaults(x),
            HeapData::Cell(x) => HeapDataRef::Cell(x),
            HeapData::Range(x) => HeapDataRef::Range(x),
            HeapData::Slice(x) => HeapDataRef::Slice(x),
            HeapData::Exception(x) => HeapDataRef::Exception(x),
            HeapData::Dataclass(x) => HeapDataRef::Dataclass(x),
            HeapData::Iter(x) => HeapDataRef::Iter(x),
            HeapData::LongInt(x) => HeapDataRef::LongInt(x),
            HeapData::Class(x) => HeapDataRef::Class(x),
            HeapData::Module(x) => HeapDataRef::Module(x),
            HeapData::Coroutine(x) => HeapDataRef::Coroutine(x),
            HeapData::GatherFuture(x) => HeapDataRef::GatherFuture(x),
            HeapData::Path(x) => HeapDataRef::Path(x),
            HeapData::ReMatch(x) => HeapDataRef::ReMatch(x),
            HeapData::RePattern(x) => HeapDataRef::RePattern(x),
            HeapData::ExtFunction(x) => HeapDataRef::ExtFunction(x),
        }
    }

    /// Re-cast this as `HeapDataMut` for mutation.
    ///
    /// This is an important part of the Heap invariants: a payload that is changed
    /// through the result keeps its type.
    pub fn to_mut(&mut self) -> (r: HeapDataMut<'_>)
        ensures
            r.data() == *old(self),
            match r {
                HeapDataMut::Str(x) => *final(self) == HeapData::Str(*final(x)),
                HeapDataMut::Bytes(x) => *final(self) == HeapData::Bytes(*final(x)),
                HeapDataMut::List(x) => *final(self) == HeapData::List(*final(x)),
                HeapDataMut::Tuple(x) => *final(self) == HeapData::Tuple(*final(x)),
                HeapDataMut::NamedTuple(x) => *final(self) == HeapData::NamedTuple(*final(x)),
                HeapDataMut::NamedTupleFactory(x) => *final(self) == HeapData::NamedTupleFactory(*final(x)),
                HeapDataMut::Dict(x) => *final(self) == HeapData::Dict(*final(x)),
                HeapDataMut::PySet(x) => *final(self) == HeapData::PySet(*final(x)),
                HeapDataMut::FrozenSet(x) => *final(self) == HeapData::FrozenSet(*final(x)),
                HeapDataMut::Closure(x) => *final(self) == HeapData::Closure(*final(x)),
                HeapDataMut::FunctionDefaults(x) => *final(self) == HeapData::FunctionDefaults(*final(x)),
                HeapDataMut::Cell(x) => *final(self) == HeapData::Cell(*final(x)),
                HeapDataMut::Range(x) => *final(self) == HeapData::Range(*final(x)),
                HeapDataMut::Slice(x) => *final(self) == HeapData::Slice(*final(x)),
                HeapDataMut::Exception(x) => *final(self) == HeapData::Exception(*final(x)),
                HeapDataMut::Dataclass(x) => *final(self) == HeapData::Dataclass(*final(x)),
                HeapDataMut::Iter(x) => *final(self) == HeapData::Iter(*final(x)),
                HeapDataMut::LongInt(x) => *final(self) == HeapData::LongInt(*final(x)),
                HeapDataMut::Class(x) => *final(self) == HeapData::Class(*final(x)),
                HeapDataMut::Module(x) => *final(self) == HeapData::Module(*final(x)),
                HeapDataMut::Coroutine(x) => *final(self) == HeapData::Coroutine(*final(x)),
                HeapDataMut::GatherFuture(x) => *final(self) == HeapData::GatherFuture(*final(x)),
                HeapDataMut::Path(x) => *final(self) == HeapData::Path(*final(x)),
                HeapDataMut::ReMatch(x) => *final(self) == HeapData::ReMatch(*final(x)),
                HeapDataMut::RePattern(x) => *final(self) == HeapData::RePattern(Box::new(*final(x))),
                HeapDataMut::ExtFunction(x) => *final(self) == HeapData::ExtFunction(*final(x)),
            },
    {
        match self {
            HeapData::Str(x) => HeapDataMut::Str(x),
            HeapData::Bytes(x) => HeapDataMut::Bytes(x),
            HeapData::List(x) => HeapDataMut::List(x),
            HeapData::Tuple(x) => HeapDataMut::Tuple(x),
            HeapData::NamedTuple(x) => HeapDataMut::NamedTuple(x),
            HeapData::NamedTupleFactory(x) => HeapDataMut::NamedTupleFactory(x),
            HeapData::Dict(x) => HeapDataMut::Dict(x),
            HeapData::PySet(x) => HeapDataMut::PySet(x),
            HeapData::FrozenSet(x) => HeapDataMut::FrozenSet(x),
            HeapData::Closure(x) => HeapDataMut::Closure(x),
            HeapData::FunctionDefaults(x) => HeapDataMut::FunctionDefaults(x),
            HeapData::Cell(x) => HeapDataMut::Cell(x),
            HeapData::Range(x) => HeapDataMut::Range(x),
            HeapData::Slice(x) => HeapDataMut::Slice(x),
            HeapData::Exception(x) => HeapDataMut::Exception(x),
            HeapData::Dataclass(x) => HeapDataMut::Dataclass(x),
            HeapData::Iter(x) => HeapDataMut::Iter(x),
            HeapData::LongInt(x) => HeapDataMut::LongInt(x),
            HeapData::Class(x) => HeapDataMut::Class(x),
            HeapData::Module(x) => HeapDataMut::Module(x),
            HeapData::Coroutine(x) => HeapDataMut::Coroutine(x),
            HeapData::GatherFuture(x) => HeapDataMut::GatherFuture(x),
            HeapData::Path(x) => HeapDataMut::Path(x),
            HeapData::ReMatch(x) => HeapDataMut::ReMatch(x),
            HeapData::RePattern(x) => HeapDataMut::RePattern(x),
            HeapData::ExtFunction(x) => HeapDataMut::ExtFunction(x),
        }
    }

    /// Returns true if this heap data is a coroutine.
    pub fn is_coroutine(&self) -> (r: bool)
        ensures
            r == (*self is Coroutine),
    {
        matches!(self, HeapData::Coroutine(_))
    }

    /// Can this kind of payload take part in a reference cycle?
    pub open spec fn spec_gc_tracked(self) -> bool {
        ||| self is List
        ||| self is Tuple
        ||| self is NamedTuple
        ||| self is NamedTupleFactory
        ||| self is Dict
        ||| self is PySet
        ||| self is FrozenSet
        ||| self is Closure
        ||| self is FunctionDefaults
        ||| self is Cell
        ||| self is Dataclass
        ||| self is Iter
        ||| self is Module
        ||| self is Coroutine
        ||| self is GatherFuture
    }

    /// Returns whether this heap data type can participate in reference cycles.
    ///
    /// Only container types that can hold references to other heap objects need to be
    /// tracked for GC purposes. Leaf types like Str, Bytes, Range, and Exception cannot
    /// form cycles and should not count toward the GC allocation threshold.
    ///
    /// This optimization allows programs that allocate many leaf objects (like strings)
    /// to avoid triggering unnecessary GC cycles.
    pub fn is_gc_tracked(&self) -> (r: bool)
        ensures
            r == self.spec_gc_tracked(),
    {
        matches!(
            self,
            HeapData::List(_)
                | HeapData::Tuple(_)
                | HeapData::NamedTuple(_)
                | HeapData::NamedTupleFactory(_)
                | HeapData::Dict(_)
                | HeapData::PySet(_)
                | HeapData::FrozenSet(_)
                | HeapData::Closure(_)
                | HeapData::FunctionDefaults(_)
                | HeapData::Cell(_)
                | HeapData::Dataclass(_)
                | HeapData::Iter(_)
                | HeapData::Module(_)
                | HeapData::Coroutine(_)
                | HeapData::GatherFuture(_)
        )
    }
}

/// Does the payload hold heap references?
///
/// A namedtuple factory goes by the flag that it keeps.
pub open spec fn holds_refs(data: HeapData) -> bool {
    match data {
        HeapData::NamedTupleFactory(f) => f.contains_refs,
        _ => child_ids(data).len() > 0,
    }
}

pub proof fn lemma_any_ref(vs: Seq<Value>)
    ensures
        any_ref(vs) <==> refs(vs).len() > 0,
    decreases vs.len(),
{
    if any_ref(vs) {
        let i = choose|i: int| 0 <= i < vs.len() && is_ref(#[trigger] vs[i]);
        if i < vs.len() - 1 {
            assert(is_ref(vs.drop_last()[i]));
            lemma_any_ref(vs.drop_last());
        }
    } else {
        lemma_no_refs(vs);
    }
}

proof fn lemma_coroutine_ids(items: Seq<GatherItem>)
    ensures
        (exists|i: int| 0 <= i < items.len() && (#[trigger] items[i]) is Coroutine) <==> coroutine_ids(items).len() > 0,
    decreases items.len(),
{
    if items.len() > 0 {
        let rest = items.drop_last();
        lemma_coroutine_ids(rest);
        if exists|i: int| 0 <= i < rest.len() && (#[trigger] rest[i]) is Coroutine {
            let i = choose|i: int| 0 <= i < rest.len() && (#[trigger] rest[i]) is Coroutine;
            assert(items[i] is Coroutine);
        }
        if items.last() is Coroutine {
            assert(items[items.len() - 1] is Coroutine);
        }
        if exists|i: int| 0 <= i < items.len() && (#[trigger] items[i]) is Coroutine {
            let i = choose|i: int| 0 <= i < items.len() && (#[trigger] items[i]) is Coroutine;
            if i < items.len() - 1 {
                assert(rest[i] is Coroutine);
            }
        }
    }
}

/// Returns whether any of the items is a coroutine.
fn any_coroutine(items: &Vec<GatherItem>) -> (r: bool)
    ensures
        r == (coroutine_ids(items@).len() > 0),
{
    proof {
        lemma_coroutine_ids(items@);
    }
    let mut i: usize = 0;
    while i < items.len()
        invariant
            i <= items@.len(),
            forall|j: int| 0 <= j < i ==> !((#[trigger] items@[j]) is Coroutine),
            (exists|j: int| 0 <= j < items@.len() && (#[trigger] items@[j]) is Coroutine) <==> coroutine_ids(
                items@,
            ).len() > 0,
        decreases items.len() - i,
    {
        if let GatherItem::Coroutine(_) = items[i] {
            assert(items@[i as int] is Coroutine);
            return true;
        }
        i = i + 1;
    }
    false
}

/// Returns whether any of the results is a heap reference.
fn any_result_ref(results: &Vec<Option<Value>>) -> (r: bool)
    ensures
        r == (refs(present(results@)).len() > 0),
{
    let mut i: usize = 0;
    let mut hit: bool = false;
    proof {
        assert(results@.take(0) =~= Seq::empty());
    }
    while i < results.len()
        invariant
            i <= results@.len(),
            hit == (refs(present(results@.take(i as int))).len() > 0),
        decreases results.len() - i,
    {
        let v: Option<Value> = results[i];
        proof {
            assert(results@.take(i + 1).drop_last() =~= results@.take(i as int));
            if let Some(x) = v {
                lemma_refs_push(present(results@.take(i as int)), x);
            }
        }
        if let Some(Value::Ref(_)) = v {
            hit = true;
        }
        i = i + 1;
    }
    proof {
        assert(results@.take(results@.len() as int) =~= results@);
    }
    hit
}

impl HeapData {
    /// Returns whether this heap data currently contains any heap references (`Value::Ref`).
    ///
    /// Used during allocation to determine if this data could create reference cycles.
    /// When true, `mark_potential_cycle()` should be called to enable GC.
    ///
    /// Note: This is separate from `is_gc_tracked()` - a container may be GC-tracked
    /// (capable of holding refs) but not currently contain any refs.
    pub fn has_refs(&self) -> (r: bool)
        ensures
            r == holds_refs(*self),
    {
        match self {
            HeapData::List(list) => {
                proof {
                    lemma_any_ref(list.items@);
                }
                contains_ref(list.as_slice())
            },
            HeapData::Tuple(tuple) => {
                proof {
                    lemma_any_ref(tuple@);
                }
                contains_ref(tuple.as_slice())
            },
            HeapData::NamedTuple(nt) => {
                proof {
                    lemma_any_ref(nt.items@);
                }
                contains_ref(nt.as_vec())
            },
            HeapData::NamedTupleFactory(factory) => factory.contains_refs,
            HeapData::Dict(dict) => {
                proof {
                    lemma_any_ref(dict.flat());
                }
                dict.has_refs()
            },
            HeapData::PySet(set) => {
                proof {
                    lemma_any_ref(set.storage.items@);
                }
                contains_ref(set.storage.items.as_slice())
            },
            HeapData::FrozenSet(set) => {
                proof {
                    lemma_any_ref(set.storage.items@);
                }
                contains_ref(set.storage.items.as_slice())
            },
            // Closures always have refs when they have captured cells (HeapIds)
            HeapData::Closure(closure) => {
                proof {
                    lemma_any_ref(closure.defaults@);
                }
                closure.cells.len() > 0 || contains_ref(closure.defaults.as_slice())
            },
            HeapData::FunctionDefaults(fd) => {
                proof {
                    lemma_any_ref(fd.defaults@);
                }
                contains_ref(fd.defaults.as_slice())
            },
            HeapData::Cell(cell) => {
                proof {
                    assert(refs(seq![cell.0].drop_last()).len() == 0);
                }
                matches!(cell.0, Value::Ref(_))
            },
            HeapData::Dataclass(dc) => {
                proof {
                    lemma_any_ref(dc.attrs.flat());
                }
                dc.attrs.has_refs()
            },
            HeapData::Iter(iter) => {
                proof {
                    assert(refs(seq![iter.value].drop_last()).len() == 0);
                }
                matches!(iter.value, Value::Ref(_))
            },
            HeapData::Module(m) => {
                proof {
                    lemma_any_ref(m.attrs.flat());
                }
                m.attrs.has_refs()
            },
            // Coroutines always have refs (namespace values, frame_cells)
            HeapData::Coroutine(coro) => {
                proof {
                    lemma_any_ref(coro.namespace@);
                }
                coro.frame_cells.len() > 0 || contains_ref(coro.namespace.as_slice())
            },
            // GatherFutures have refs from coroutine items and results
            HeapData::GatherFuture(gather) => any_coroutine(&gather.items) || any_result_ref(&gather.results),
            // Leaf types cannot have refs
            _ => false,
        }
    }
}

/// Appends ids to a work list.
fn push_ids(ids: &Vec<HeapId>, stack: &mut Vec<HeapId>)
    ensures
        final(stack)@ == old(stack)@ + ids@,
{
    let mut i: usize = 0;
    proof {
        assert(stack@ =~= old(stack)@ + ids@.take(0));
    }
    while i < ids.len()
        invariant
            i <= ids@.len(),
            stack@ == old(stack)@ + ids@.take(i as int),
        decreases ids.len() - i,
    {
        stack.push(ids[i]);
        i = i + 1;
        proof {
            assert(stack@ =~= old(stack)@ + ids@.take(i as int));
        }
    }
    proof {
        assert(ids@.take(ids@.len() as int) =~= ids@);
    }
}

impl<'a> HeapDataRef<'a> {
    /// Appends the heap references that the payload holds to a work list.
    pub fn push_child_ids(self, stack: &mut Vec<HeapId>)
        ensures
            final(stack)@ == old(stack)@ + child_ids(self.data()),
    {
        match self {
            HeapDataRef::List(l) => push_refs(l.as_slice(), stack),
            HeapDataRef::Tuple(t) => push_refs(t.as_slice(), stack),
            HeapDataRef::NamedTuple(nt) => push_refs(nt.as_vec(), stack),
            HeapDataRef::NamedTupleFactory(factory) => {
                if factory.contains_refs {
                    push_refs(factory.defaults.as_slice(), stack);
                }
            },
            HeapDataRef::Dict(d) => d.push_refs(stack),
            HeapDataRef::PySet(s) => push_refs(s.storage.items.as_slice(), stack),
            HeapDataRef::FrozenSet(s) => push_refs(s.storage.items.as_slice(), stack),
            HeapDataRef::Closure(closure) => {
                // captured cells, then default values that are heap references
                push_ids(&closure.cells, stack);
                push_refs(closure.defaults.as_slice(), stack);
            },
            HeapDataRef::FunctionDefaults(fd) => push_refs(fd.defaults.as_slice(), stack),
            HeapDataRef::Cell(cell) => push_ref(cell.0, stack),
            HeapDataRef::Dataclass(dc) => dc.attrs.push_refs(stack),
            HeapDataRef::Iter(iter) => push_ref(iter.value, stack),
            HeapDataRef::Module(m) => m.attrs.push_refs(stack),
            HeapDataRef::Coroutine(coro) => {
                // frame cells, then namespace values that are heap references
                push_ids(&coro.frame_cells, stack);
                push_refs(coro.namespace.as_slice(), stack);
            },
            HeapDataRef::GatherFuture(gather) => {
                // coroutines, then result values that are heap references
                gather.push_coroutines(stack);
                gather.push_result_refs(stack);
            },
            // other types have no nested heap references
            _ => {},
        }
        proof {
            assert(stack@ =~= old(stack)@ + child_ids(self.data()));
        }
    }
}

/// Collects child HeapIds from a HeapData value for GC traversal.
///
/// Containers without any reference are left without a walk over their items.
pub fn collect_child_ids(data: &HeapData, work_list: &mut Vec<HeapId>)
    ensures
        final(work_list)@ == old(work_list)@ + child_ids(*data),
{
    let skip: bool = match data {
        // major GC optimization for containers of primitives
        HeapData::List(_) | HeapData::Tuple(_) | HeapData::NamedTuple(_) | HeapData::NamedTupleFactory(_)
            | HeapData::Dict(_) | HeapData::Module(_) => !data.has_refs(),
        _ => false,
    };
    if skip {
        proof {
            assert(work_list@ =~= old(work_list)@ + child_ids(*data));
        }
        return ;
    }
    data.as_ref().push_child_ids(work_list);
}

impl HeapData {
    /// Appends the heap references that the payload gives up when it is freed.
    pub fn py_dec_ref_ids(&self, stack: &mut Vec<HeapId>)
        ensures
            final(stack)@ == old(stack)@ + child_ids(*self),
    {
        self.as_ref().push_child_ids(stack);
    }
}

impl<'a> HeapDataMut<'a> {
    /// Appends the heap references that the payload gives up when it is freed.
    pub fn py_dec_ref_ids(&self, stack: &mut Vec<HeapId>)
        ensures
            final(stack)@ == old(stack)@ + child_ids(self.data()),
    {
        self.as_ref().push_child_ids(stack);
    }
}

} // verus!
