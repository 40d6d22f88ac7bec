//! Python equality.
//!
//! Values are compared by identity first, then by text, bytes or number, then by
//! the payloads that they refer to. Every step into a container counts as one
//! level of recursion, so the tracker decides how deep a comparison may go.

use crate::builtins::Builtins;
use crate::function::{FunctionView, function_views};
use crate::heap::{Heap, HeapModel, check_deeper, deeper};
use crate::heap_data::{HeapData, HeapDataMut, HeapDataRef, kind_tag};
use crate::heap_model::{Entries, data_at, live, readable};
use crate::intern::{FunctionId, InternTables, Interns, id_text, valid_id};
use crate::resource::{ResourceError, ResourceTracker};
use crate::text::same_text;
use crate::types::Type;
use crate::types::long_int::LongInt;
use crate::types::mappings::{Dict, DictEntry, flat};
use crate::types::sequences::{NamedTuple, Tuple};
use crate::value::{HeapId, Value};
use crate::walk::{Walk, lemma_at_hand, lemma_keys_at_hand};
use vstd::prelude::*;

verus! {

/// What a comparison looks at: entries, interned literals, and the tracker that
/// limits recursion.
pub struct Scene<T> {
    pub entries: Entries,
    pub tables: InternTables,
    pub functions: Seq<FunctionView>,
    pub tracker: T,
}

/// The scene of a heap and an intern table.
pub open spec fn scene<T: ResourceTracker>(heap: HeapModel<T>, interns: Interns) -> Scene<T> {
    Scene {
        entries: heap.entries,
        tables: interns.tables(),
        functions: function_views(interns.functions@),
        tracker: heap.tracker,
    }
}

/// The values that a container compares and hashes by.
pub open spec fn elements(data: HeapData) -> Seq<Value> {
    match data {
        HeapData::List(l) => l.items@,
        HeapData::Tuple(t) => t@,
        HeapData::NamedTuple(nt) => nt.items@,
        HeapData::Dict(d) => d.flat(),
        HeapData::PySet(s) => s.storage.items@,
        HeapData::FrozenSet(s) => s.storage.items@,
        HeapData::Dataclass(dc) => dc.attrs.flat(),
        _ => Seq::empty(),
    }
}

impl<T: ResourceTracker> Scene<T> {
    /// Does the value lead to something: a live entry, or an interned literal?
    pub open spec fn has(self, v: Value) -> bool {
        match v {
            Value::Ref(id) => live(self.entries, id),
            Value::InternString(id) => valid_id(self.tables.strings, id),
            Value::InternBytes(id) => id.0 < self.tables.bytes.len(),
            Value::ExtFunction(id) => valid_id(self.tables.strings, id),
            Value::DefFunction(id) => self.has_function(id),
            _ => true,
        }
    }

    /// Does the id lead to a function whose name is known?
    pub open spec fn has_function(self, id: FunctionId) -> bool {
        id.0 < self.functions.len() && valid_id(self.tables.strings, self.functions[id.0 as int].name.name_id)
    }

    /// Do all the values lead to something?
    pub open spec fn has_all(self, vs: Seq<Value>) -> bool {
        forall|i: int| 0 <= i < vs.len() ==> self.has(#[trigger] vs[i])
    }

    /// The Python type of a value.
    pub open spec fn type_of(self, v: Value) -> Type {
        match v {
            Value::Undefined => Type::NoneType,
            Value::PyNone => Type::NoneType,
            Value::Bool(_) => Type::Bool,
            Value::Int(_) => Type::Int,
            Value::InternString(_) => Type::Str,
            Value::InternBytes(_) => Type::Bytes,
            Value::Builtin(Builtins::Function(_)) => Type::BuiltinFunction,
            Value::Builtin(_) => Type::Type,
            Value::ModuleFunction(_) => Type::BuiltinFunction,
            Value::ExtFunction(_) => Type::Function,
            Value::DefFunction(_) => Type::Function,
            Value::Property(_) => Type::Property,
            Value::Marker(_) => Type::SpecialForm,
            Value::Ref(id) => data_at(self.entries, id).spec_type(),
        }
    }

    /// Does a value count as true?
    pub open spec fn truth(self, v: Value) -> bool {
        match v {
            Value::Undefined => false,
            Value::PyNone => false,
            Value::Bool(b) => b,
            Value::Int(n) => n != 0,
            Value::InternString(id) => id_text(self.tables.strings, id).len() > 0,
            Value::InternBytes(id) => self.tables.bytes[id.0 as int].len() > 0,
            Value::Ref(id) => data_at(self.entries, id).spec_bool(),
            _ => true,
        }
    }

    /// The text of a string value.
    pub open spec fn text(self, v: Value) -> Option<Seq<char>> {
        match v {
            Value::InternString(id) => Some(id_text(self.tables.strings, id)),
            Value::Ref(id) => match data_at(self.entries, id) {
                HeapData::Str(s) => Some(s.value@),
                _ => None,
            },
            _ => None,
        }
    }

    /// The bytes of a bytes value.
    pub open spec fn bytes(self, v: Value) -> Option<Seq<u8>> {
        match v {
            Value::InternBytes(id) => Some(self.tables.bytes[id.0 as int]),
            Value::Ref(id) => match data_at(self.entries, id) {
                HeapData::Bytes(b) => Some(b.value@),
                _ => None,
            },
            _ => None,
        }
    }

    /// The number that a value stands for: booleans count as zero and one.
    pub open spec fn number(self, v: Value) -> Option<int> {
        match v {
            Value::Int(n) => Some(n as int),
            Value::Bool(b) => Some(if b { 1 } else { 0 }),
            Value::Ref(id) => match data_at(self.entries, id) {
                HeapData::LongInt(li) => Some(li@),
                _ => None,
            },
            _ => None,
        }
    }

    /// Are two values equal?
    pub open spec fn eq_values(self, a: Value, b: Value, depth: usize) -> Result<bool, ResourceError>
        decreases usize::MAX - depth, 2int, 0int,
    {
        if a == b {
            Ok(true)
        } else if self.text(a) is Some && self.text(b) is Some {
            Ok(self.text(a) == self.text(b))
        } else if self.bytes(a) is Some && self.bytes(b) is Some {
            Ok(self.bytes(a) == self.bytes(b))
        } else if self.number(a) is Some && self.number(b) is Some {
            Ok(self.number(a) == self.number(b))
        } else {
            match (a, b) {
                (Value::Ref(x), Value::Ref(y)) => self.eq_data(
                    data_at(self.entries, x),
                    data_at(self.entries, y),
                    depth,
                ),
                _ => Ok(false),
            }
        }
    }

    /// Are two payloads equal?
    pub open spec fn eq_data(self, a: HeapData, b: HeapData, depth: usize) -> Result<bool, ResourceError>
        decreases usize::MAX - depth, 1int, 0int,
    {
        match (a, b) {
            (HeapData::Str(x), HeapData::Str(y)) => Ok(x.value@ == y.value@),
            (HeapData::Bytes(x), HeapData::Bytes(y)) => Ok(x.value@ == y.value@),
            (HeapData::List(x), HeapData::List(y)) => self.eq_sequences(x.items@, y.items@, depth),
            (HeapData::Tuple(x), HeapData::Tuple(y)) => self.eq_sequences(x@, y@, depth),
            (HeapData::NamedTuple(x), HeapData::NamedTuple(y)) => self.eq_sequences(x.items@, y.items@, depth),
            (HeapData::NamedTuple(x), HeapData::Tuple(y)) => self.eq_sequences(x.items@, y@, depth),
            (HeapData::Tuple(x), HeapData::NamedTuple(y)) => self.eq_sequences(y.items@, x@, depth),
            (HeapData::Dict(x), HeapData::Dict(y)) => self.eq_mappings(x.entries@, y.entries@, depth),
            (HeapData::PySet(x), HeapData::PySet(y)) => self.eq_sets(x.storage.items@, y.storage.items@, depth),
            (HeapData::FrozenSet(x), HeapData::FrozenSet(y)) => self.eq_sets(
                x.storage.items@,
                y.storage.items@,
                depth,
            ),
            (HeapData::Closure(x), HeapData::Closure(y)) => Ok(x.func_id == y.func_id && x.cells@ == y.cells@),
            (HeapData::FunctionDefaults(x), HeapData::FunctionDefaults(y)) => Ok(x.func_id == y.func_id),
            (HeapData::Range(x), HeapData::Range(y)) => Ok(x == y),
            (HeapData::Dataclass(x), HeapData::Dataclass(y)) => if x.type_id == y.type_id {
                self.eq_mappings(x.attrs.entries@, y.attrs.entries@, depth)
            } else {
                Ok(false)
            },
            (HeapData::LongInt(x), HeapData::LongInt(y)) => Ok(x@ == y@),
            (HeapData::Slice(x), HeapData::Slice(y)) => Ok(x == y),
            (HeapData::Path(x), HeapData::Path(y)) => Ok(x.path@ == y.path@),
            (HeapData::RePattern(x), HeapData::RePattern(y)) => Ok(x.pattern@ == y.pattern@ && x.flags == y.flags),
            // Everything else compares by identity, and different types are never equal.
            _ => Ok(false),
        }
    }

    /// Are two sequences equal item by item?
    pub open spec fn eq_sequences(self, xs: Seq<Value>, ys: Seq<Value>, depth: usize) -> Result<bool, ResourceError>
        decreases usize::MAX - depth, 0int, 0int,
    {
        if xs.len() != ys.len() {
            Ok(false)
        } else {
            match deeper(self.tracker, depth) {
                Ok(_) => self.eq_items(xs, ys, 0, (depth + 1) as usize),
                Err(e) => Err(e),
            }
        }
    }

    /// Are two sequences of the same length equal from item `i` on?
    pub open spec fn eq_items(self, xs: Seq<Value>, ys: Seq<Value>, i: nat, depth: usize) -> Result<bool, ResourceError>
        decreases usize::MAX - depth, 3int, xs.len() - i,
    {
        if i >= xs.len() {
            Ok(true)
        } else {
            match self.eq_values(xs[i as int], ys[i as int], depth) {
                Ok(true) => self.eq_items(xs, ys, i + 1, depth),
                other => other,
            }
        }
    }

    /// The first position from `i` on of an item that is equal to `v`.
    pub open spec fn find(self, v: Value, ys: Seq<Value>, i: nat, depth: usize) -> Result<Option<nat>, ResourceError>
        decreases usize::MAX - depth, 3int, ys.len() - i,
    {
        if i >= ys.len() {
            Ok(None)
        } else {
            match self.eq_values(v, ys[i as int], depth) {
                Ok(true) => Ok(Some(i)),
                Ok(false) => self.find(v, ys, i + 1, depth),
                Err(e) => Err(e),
            }
        }
    }

    /// Have two sets the same elements?
    pub open spec fn eq_sets(self, xs: Seq<Value>, ys: Seq<Value>, depth: usize) -> Result<bool, ResourceError>
        decreases usize::MAX - depth, 0int, 0int,
    {
        if xs.len() != ys.len() {
            Ok(false)
        } else {
            match deeper(self.tracker, depth) {
                Ok(_) => self.subset_from(xs, ys, 0, (depth + 1) as usize),
                Err(e) => Err(e),
            }
        }
    }

    /// Is every item of `xs` from `i` on equal to some item of `ys`?
    pub open spec fn subset_from(
        self,
        xs: Seq<Value>,
        ys: Seq<Value>,
        i: nat,
        depth: usize,
    ) -> Result<bool, ResourceError>
        decreases usize::MAX - depth, 4int, xs.len() - i,
    {
        if i >= xs.len() {
            Ok(true)
        } else {
            match self.find(xs[i as int], ys, 0, depth) {
                Ok(Some(_)) => self.subset_from(xs, ys, i + 1, depth),
                Ok(None) => Ok(false),
                Err(e) => Err(e),
            }
        }
    }

    /// Have two dictionaries the same keys, with equal values?
    pub open spec fn eq_mappings(
        self,
        xs: Seq<DictEntry>,
        ys: Seq<DictEntry>,
        depth: usize,
    ) -> Result<bool, ResourceError>
        decreases usize::MAX - depth, 0int, 0int,
    {
        if xs.len() != ys.len() {
            Ok(false)
        } else {
            match deeper(self.tracker, depth) {
                Ok(_) => self.submap_from(xs, ys, 0, (depth + 1) as usize),
                Err(e) => Err(e),
            }
        }
    }

    /// Has every entry of `xs` from `i` on an equal key with an equal value in `ys`?
    pub open spec fn submap_from(
        self,
        xs: Seq<DictEntry>,
        ys: Seq<DictEntry>,
        i: nat,
        depth: usize,
    ) -> Result<bool, ResourceError>
        decreases usize::MAX - depth, 4int, xs.len() - i,
    {
        if i >= xs.len() {
            Ok(true)
        } else {
            match self.find(xs[i as int].key, keys(ys), 0, depth) {
                Ok(Some(j)) => match self.eq_values(xs[i as int].value, ys[j as int].value, depth) {
                    Ok(true) => self.submap_from(xs, ys, i + 1, depth),
                    other => other,
                },
                Ok(None) => Ok(false),
                Err(e) => Err(e),
            }
        }
    }
}

/// The keys of some entries.
pub open spec fn keys(es: Seq<DictEntry>) -> Seq<Value> {
    es.map_values(|e: DictEntry| e.key)
}

/// Payloads of different kinds are never equal, but for tuples and named tuples.
pub proof fn different_kinds_are_never_equal<T: ResourceTracker>(
    s: Scene<T>,
    a: HeapData,
    b: HeapData,
    depth: usize,
)
    requires
        kind_tag(a) != kind_tag(b),
        !(a is Tuple && b is NamedTuple),
        !(a is NamedTuple && b is Tuple),
    ensures
        s.eq_data(a, b, depth) == Ok::<bool, ResourceError>(false),
{
}

/// A named tuple compares with a plain tuple the same way round and the other way
/// round, and as the items compare.
pub proof fn named_tuples_compare_as_tuples<T: ResourceTracker>(
    s: Scene<T>,
    named: NamedTuple,
    plain: Tuple,
    depth: usize,
)
    ensures
        s.eq_data(HeapData::NamedTuple(named), HeapData::Tuple(plain), depth) == s.eq_sequences(
            named.items@,
            plain@,
            depth,
        ),
        s.eq_data(HeapData::Tuple(plain), HeapData::NamedTuple(named), depth) == s.eq_data(
            HeapData::NamedTuple(named),
            HeapData::Tuple(plain),
            depth,
        ),
{
}

/// Every value equals itself, however deep the comparison is.
pub proof fn values_equal_themselves<T: ResourceTracker>(s: Scene<T>, v: Value, depth: usize)
    ensures
        s.eq_values(v, v, depth) == Ok::<bool, ResourceError>(true),
{
}

/// Compares two slices of ids.
fn same_ids(a: &Vec<HeapId>, b: &Vec<HeapId>) -> (r: bool)
    ensures
        r == (a@ == b@),
{
    if a.len() != b.len() {
        return false;
    }
    let mut i: usize = 0;
    while i < a.len()
        invariant
            i <= a@.len(),
            a@.len() == b@.len(),
            forall|j: int| 0 <= j < i ==> a@[j] == b@[j],
        decreases a.len() - i,
    {
        if a[i] != b[i] {
            return false;
        }
        i = i + 1;
    }
    proof {
        assert(a@ =~= b@);
    }
    true
}

/// Compares two byte slices.
pub fn same_bytes(a: &[u8], b: &[u8]) -> (r: bool)
    ensures
        r == (a@ == b@),
{
    if a.len() != b.len() {
        return false;
    }
    let mut i: usize = 0;
    while i < a.len()
        invariant
            i <= a@.len(),
            a@.len() == b@.len(),
            forall|j: int| 0 <= j < i ==> a@[j] == b@[j],
        decreases a.len() - i,
    {
        if a[i] != b[i] {
            return false;
        }
        i = i + 1;
    }
    proof {
        assert(a@ =~= b@);
    }
    true
}

impl Value {
    /// Returns the text of a string value.
    pub fn as_text<'a, T: ResourceTracker>(self, heap: &'a Heap<T>, interns: &'a Interns) -> (r: Option<&'a str>)
        requires
            scene(heap@, *interns).has(self),
            self matches Value::Ref(id) ==> readable(heap@.entries, id),
        ensures
            r is Some <==> scene(heap@, *interns).text(self) is Some,
            r matches Some(s) ==> scene(heap@, *interns).text(self) == Some(s@),
    {
        match self {
            Value::InternString(id) => Some(interns.get_str(id)),
            Value::Ref(id) => match heap.get(id) {
                HeapData::Str(s) => Some(s.as_str()),
                _ => None,
            },
            _ => None,
        }
    }

    /// Returns the bytes of a bytes value.
    pub fn as_bytes_value<'a, T: ResourceTracker>(self, heap: &'a Heap<T>, interns: &'a Interns) -> (r: Option<
        &'a [u8],
    >)
        requires
            scene(heap@, *interns).has(self),
            self matches Value::Ref(id) ==> readable(heap@.entries, id),
        ensures
            r is Some <==> scene(heap@, *interns).bytes(self) is Some,
            r matches Some(s) ==> scene(heap@, *interns).bytes(self) == Some(s@),
    {
        match self {
            Value::InternBytes(id) => Some(interns.get_bytes(id)),
            Value::Ref(id) => match heap.get(id) {
                HeapData::Bytes(b) => Some(b.as_slice()),
                _ => None,
            },
            _ => None,
        }
    }

    /// Returns the Python type of a value.
    pub fn py_type<T: ResourceTracker>(self, heap: &Heap<T>, interns: &Interns) -> (r: Type)
        requires
            self matches Value::Ref(id) ==> readable(heap@.entries, id),
        ensures
            r == scene(heap@, *interns).type_of(self),
    {
        match self {
            Value::Undefined => Type::NoneType,
            Value::PyNone => Type::NoneType,
            Value::Bool(_) => Type::Bool,
            Value::Int(_) => Type::Int,
            Value::InternString(_) => Type::Str,
            Value::InternBytes(_) => Type::Bytes,
            Value::Builtin(Builtins::Function(_)) => Type::BuiltinFunction,
            Value::Builtin(_) => Type::Type,
            Value::ModuleFunction(_) => Type::BuiltinFunction,
            Value::ExtFunction(_) => Type::Function,
            Value::DefFunction(_) => Type::Function,
            Value::Property(_) => Type::Property,
            Value::Marker(_) => Type::SpecialForm,
            Value::Ref(id) => heap.get(id).py_type(),
        }
    }

    /// Returns whether a value counts as true.
    pub fn py_bool<T: ResourceTracker>(self, heap: &Heap<T>, interns: &Interns) -> (r: bool)
        requires
            scene(heap@, *interns).has(self),
            self matches Value::Ref(id) ==> readable(heap@.entries, id),
        ensures
            r == scene(heap@, *interns).truth(self),
    {
        match self {
            Value::Undefined => false,
            Value::PyNone => false,
            Value::Bool(b) => b,
            Value::Int(n) => n != 0,
            Value::InternString(id) => interns.get_str(id).unicode_len() > 0,
            Value::InternBytes(id) => interns.get_bytes(id).len() > 0,
            Value::Ref(id) => heap.get(id).py_bool(),
            _ => true,
        }
    }

    /// Compares two values as numbers: `None` where one of them is no number.
    fn same_number<T: ResourceTracker>(a: Value, b: Value, heap: &Heap<T>, interns: &Interns) -> (r: Option<bool>)
        requires
            a matches Value::Ref(id) ==> readable(heap@.entries, id),
            b matches Value::Ref(id) ==> readable(heap@.entries, id),
        ensures
            r is Some <==> scene(heap@, *interns).number(a) is Some && scene(heap@, *interns).number(b) is Some,
            r matches Some(same) ==> same == (scene(heap@, *interns).number(a) == scene(heap@, *interns).number(b)),
    {
        match (Value::to_long(a, heap, interns), Value::to_long(b, heap, interns)) {
            (Some(x), Some(y)) => Some(x.same(&y)),
            _ => None,
        }
    }

    /// Returns the number that a value stands for.
    fn to_long<T: ResourceTracker>(v: Value, heap: &Heap<T>, interns: &Interns) -> (r: Option<LongInt>)
        requires
            v matches Value::Ref(id) ==> readable(heap@.entries, id),
        ensures
            r is Some <==> scene(heap@, *interns).number(v) is Some,
            r matches Some(n) ==> scene(heap@, *interns).number(v) == Some(n@),
    {
        match v {
            Value::Int(n) => Some(LongInt::from_i64(n)),
            Value::Bool(b) => Some(LongInt::from_i64(if b { 1 } else { 0 })),
            Value::Ref(id) => match heap.get(id) {
                HeapData::LongInt(li) => Some(li.duplicate()),
                _ => None,
            },
            _ => None,
        }
    }

    /// Returns whether two values are equal.
    ///
    /// `depth` is the recursion depth at which the comparison starts.
    pub fn py_eq<T: ResourceTracker>(
        self,
        other: Value,
        heap: &Heap<T>,
        interns: &Interns,
        depth: usize,
    ) -> (r: Result<bool, ResourceError>)
        requires
            scene(heap@, *interns).at_hand(Walk::Compare, self),
            scene(heap@, *interns).at_hand(Walk::Compare, other),
        ensures
            r == scene(heap@, *interns).eq_values(self, other, depth),
        decreases usize::MAX - depth, 2int, 0int,
    {
        let ghost s = scene(heap@, *interns);
        proof {
            lemma_at_hand(s, Walk::Compare, self);
            lemma_at_hand(s, Walk::Compare, other);
        }
        if self == other {
            return Ok(true);
        }
        if let (Some(a), Some(b)) = (self.as_text(heap, interns), other.as_text(heap, interns)) {
            return Ok(same_text(a, b));
        }
        if let (Some(a), Some(b)) = (self.as_bytes_value(heap, interns), other.as_bytes_value(heap, interns)) {
            return Ok(same_bytes(a, b));
        }
        if let Some(same) = Value::same_number(self, other, heap, interns) {
            return Ok(same);
        }
        match (self, other) {
            (Value::Ref(x), Value::Ref(y)) => heap.get(x).as_ref().py_eq(heap.get(y).as_ref(), heap, interns, depth),
            _ => Ok(false),
        }
    }
}

/// Compares two sequences of the same length item by item.
fn eq_items<T: ResourceTracker>(
    xs: &[Value],
    ys: &[Value],
    heap: &Heap<T>,
    interns: &Interns,
    depth: usize,
) -> (r: Result<bool, ResourceError>)
    requires
        scene(heap@, *interns).all_at_hand(Walk::Compare, xs@),
        scene(heap@, *interns).all_at_hand(Walk::Compare, ys@),
        xs@.len() == ys@.len(),
    ensures
        r == scene(heap@, *interns).eq_items(xs@, ys@, 0, depth),
    decreases usize::MAX - depth, 3int, 0int,
{
    let ghost s = scene(heap@, *interns);
    let mut i: usize = 0;
    while i < xs.len()
        invariant
            i <= xs@.len(),
            xs@.len() == ys@.len(),
            s == scene(heap@, *interns),
            s.all_at_hand(Walk::Compare, xs@),
            s.all_at_hand(Walk::Compare, ys@),
            s.eq_items(xs@, ys@, 0, depth) == s.eq_items(xs@, ys@, i as nat, depth),
        decreases xs.len() - i,
    {
        match xs[i].py_eq(ys[i], heap, interns, depth) {
            Ok(true) => {},
            other => {
                return other;
            },
        }
        i = i + 1;
    }
    Ok(true)
}

/// Compares two sequences.
fn eq_sequences<T: ResourceTracker>(
    xs: &[Value],
    ys: &[Value],
    heap: &Heap<T>,
    interns: &Interns,
    depth: usize,
) -> (r: Result<bool, ResourceError>)
    requires
        scene(heap@, *interns).all_at_hand(Walk::Compare, xs@),
        scene(heap@, *interns).all_at_hand(Walk::Compare, ys@),
    ensures
        r == scene(heap@, *interns).eq_sequences(xs@, ys@, depth),
    decreases usize::MAX - depth, 0int, 0int,
{
    if xs.len() != ys.len() {
        return Ok(false);
    }
    match check_deeper(&heap.tracker, depth) {
        Ok(_) => eq_items(xs, ys, heap, interns, depth + 1),
        Err(e) => Err(e),
    }
}

/// Returns the first position of an item that is equal to `v`.
pub fn find_equal<T: ResourceTracker>(
    v: Value,
    ys: &[Value],
    heap: &Heap<T>,
    interns: &Interns,
    depth: usize,
) -> (r: Result<Option<usize>, ResourceError>)
    requires
        scene(heap@, *interns).at_hand(Walk::Compare, v),
        scene(heap@, *interns).all_at_hand(Walk::Compare, ys@),
    ensures
        match r {
            Ok(Some(j)) => scene(heap@, *interns).find(v, ys@, 0, depth) == Ok::<Option<nat>, ResourceError>(
                Some(j as nat),
            ) && j < ys@.len(),
            Ok(None) => scene(heap@, *interns).find(v, ys@, 0, depth) == Ok::<Option<nat>, ResourceError>(None),
            Err(e) => scene(heap@, *interns).find(v, ys@, 0, depth) == Err::<Option<nat>, ResourceError>(e),
        },
    decreases usize::MAX - depth, 3int, 0int,
{
    let ghost s = scene(heap@, *interns);
    let mut i: usize = 0;
    while i < ys.len()
        invariant
            i <= ys@.len(),
            s == scene(heap@, *interns),
            s.at_hand(Walk::Compare, v),
            s.all_at_hand(Walk::Compare, ys@),
            s.find(v, ys@, 0, depth) == s.find(v, ys@, i as nat, depth),
        decreases ys.len() - i,
    {
        match v.py_eq(ys[i], heap, interns, depth) {
            Ok(true) => {
                return Ok(Some(i));
            },
            Ok(false) => {},
            Err(e) => {
                return Err(e);
            },
        }
        i = i + 1;
    }
    Ok(None)
}

/// Compares two sets.
fn eq_sets<T: ResourceTracker>(
    xs: &[Value],
    ys: &[Value],
    heap: &Heap<T>,
    interns: &Interns,
    depth: usize,
) -> (r: Result<bool, ResourceError>)
    requires
        scene(heap@, *interns).all_at_hand(Walk::Compare, xs@),
        scene(heap@, *interns).all_at_hand(Walk::Compare, ys@),
    ensures
        r == scene(heap@, *interns).eq_sets(xs@, ys@, depth),
    decreases usize::MAX - depth, 0int, 0int,
{
    let ghost s = scene(heap@, *interns);
    if xs.len() != ys.len() {
        return Ok(false);
    }
    match check_deeper(&heap.tracker, depth) {
        Ok(_) => {},
        Err(e) => {
            return Err(e);
        },
    }
    let below: usize = depth + 1;
    let mut i: usize = 0;
    while i < xs.len()
        invariant
            i <= xs@.len(),
            s == scene(heap@, *interns),
            s.all_at_hand(Walk::Compare, xs@),
            s.all_at_hand(Walk::Compare, ys@),
            below == depth + 1,
            s.eq_sets(xs@, ys@, depth) == s.subset_from(xs@, ys@, i as nat, below),
        decreases xs.len() - i,
    {
        match find_equal(xs[i], ys, heap, interns, below) {
            Ok(Some(_)) => {},
            Ok(None) => {
                return Ok(false);
            },
            Err(e) => {
                return Err(e);
            },
        }
        i = i + 1;
    }
    Ok(true)
}

/// Returns the keys of a dictionary.
pub fn dict_keys(d: &Dict) -> (r: Vec<Value>)
    ensures
        r@ == keys(d.entries@),
{
    let mut r: Vec<Value> = Vec::with_capacity(d.entries.len());
    let mut i: usize = 0;
    while i < d.entries.len()
        invariant
            i <= d.entries@.len(),
            r@.len() == i,
            forall|j: int| 0 <= j < i ==> #[trigger] r@[j] == d.entries@[j].key,
        decreases d.entries.len() - i,
    {
        r.push(d.entries[i].key);
        i = i + 1;
    }
    proof {
        assert(r@ =~= keys(d.entries@));
    }
    r
}

/// Compares two dictionaries.
fn eq_mappings<T: ResourceTracker>(
    xs: &Dict,
    ys: &Dict,
    heap: &Heap<T>,
    interns: &Interns,
    depth: usize,
) -> (r: Result<bool, ResourceError>)
    requires
        scene(heap@, *interns).all_at_hand(Walk::Compare, xs.flat()),
        scene(heap@, *interns).all_at_hand(Walk::Compare, ys.flat()),
    ensures
        r == scene(heap@, *interns).eq_mappings(xs.entries@, ys.entries@, depth),
    decreases usize::MAX - depth, 0int, 0int,
{
    let ghost s = scene(heap@, *interns);
    if xs.entries.len() != ys.entries.len() {
        return Ok(false);
    }
    match check_deeper(&heap.tracker, depth) {
        Ok(_) => {},
        Err(e) => {
            return Err(e);
        },
    }
    let below: usize = depth + 1;
    let other_keys: Vec<Value> = dict_keys(ys);
    proof {
        lemma_keys_at_hand(s, Walk::Compare, xs.entries@);
        lemma_keys_at_hand(s, Walk::Compare, ys.entries@);
    }
    let mut i: usize = 0;
    while i < xs.entries.len()
        invariant
            i <= xs.entries@.len(),
            s == scene(heap@, *interns),
            forall|k: int|
                0 <= k < xs.entries@.len() ==> s.at_hand(Walk::Compare, (#[trigger] xs.entries@[k]).key) && s.at_hand(Walk::Compare, xs.entries@[k].value),
            forall|k: int|
                0 <= k < ys.entries@.len() ==> s.at_hand(Walk::Compare, (#[trigger] ys.entries@[k]).key) && s.at_hand(Walk::Compare, ys.entries@[k].value),
            s.all_at_hand(Walk::Compare, keys(ys.entries@)),
            other_keys@ == keys(ys.entries@),
            below == depth + 1,
            s.eq_mappings(xs.entries@, ys.entries@, depth) == s.submap_from(
                xs.entries@,
                ys.entries@,
                i as nat,
                below,
            ),
        decreases xs.entries.len() - i,
    {
        let e: DictEntry = xs.entries[i];
        proof {
            assert(s.at_hand(Walk::Compare, xs.entries@[i as int].key));
        }
        match find_equal(e.key, other_keys.as_slice(), heap, interns, below) {
            Ok(Some(j)) => match e.value.py_eq(ys.entries[j].value, heap, interns, below) {
                Ok(true) => {},
                other => {
                    return other;
                },
            },
            Ok(None) => {
                return Ok(false);
            },
            Err(e) => {
                return Err(e);
            },
        }
        i = i + 1;
    }
    Ok(true)
}

impl<'a> HeapDataRef<'a> {
    /// Returns whether two payloads are equal.
    pub fn py_eq<T: ResourceTracker>(
        self,
        other: HeapDataRef<'_>,
        heap: &Heap<T>,
        interns: &Interns,
        depth: usize,
    ) -> (r: Result<bool, ResourceError>)
        requires
            scene(heap@, *interns).payload_at_hand(Walk::Compare, self.data()),
            scene(heap@, *interns).payload_at_hand(Walk::Compare, other.data()),
        ensures
            r == scene(heap@, *interns).eq_data(self.data(), other.data(), depth),
        decreases usize::MAX - depth, 1int, 0int,
    {
        match (self, other) {
            (HeapDataRef::Str(a), HeapDataRef::Str(b)) => Ok(same_text(a.as_str(), b.as_str())),
            (HeapDataRef::Bytes(a), HeapDataRef::Bytes(b)) => Ok(same_bytes(a.as_slice(), b.as_slice())),
            (HeapDataRef::List(a), HeapDataRef::List(b)) => eq_sequences(a.as_slice(), b.as_slice(), heap, interns, depth),
            (HeapDataRef::Tuple(a), HeapDataRef::Tuple(b)) => eq_sequences(
                a.as_slice(),
                b.as_slice(),
                heap,
                interns,
                depth,
            ),
            (HeapDataRef::NamedTuple(a), HeapDataRef::NamedTuple(b)) => eq_sequences(
                a.as_vec(),
                b.as_vec(),
                heap,
                interns,
                depth,
            ),
            (HeapDataRef::NamedTupleFactory(_), HeapDataRef::NamedTupleFactory(_)) => Ok(false),
            // NamedTuple can compare with Tuple by elements (matching CPython behavior)
            (HeapDataRef::NamedTuple(nt), HeapDataRef::Tuple(t)) => eq_sequences(
                nt.as_vec(),
                t.as_slice(),
                heap,
                interns,
                depth,
            ),
            (HeapDataRef::Tuple(t), HeapDataRef::NamedTuple(nt)) => eq_sequences(
                nt.as_vec(),
                t.as_slice(),
                heap,
                interns,
                depth,
            ),
            (HeapDataRef::Dict(a), HeapDataRef::Dict(b)) => eq_mappings(a, b, heap, interns, depth),
            (HeapDataRef::PySet(a), HeapDataRef::PySet(b)) => eq_sets(
                a.storage.items.as_slice(),
                b.storage.items.as_slice(),
                heap,
                interns,
                depth,
            ),
            (HeapDataRef::FrozenSet(a), HeapDataRef::FrozenSet(b)) => eq_sets(
                a.storage.items.as_slice(),
                b.storage.items.as_slice(),
                heap,
                interns,
                depth,
            ),
            (HeapDataRef::Closure(a), HeapDataRef::Closure(b)) => Ok(
                a.func_id == b.func_id && same_ids(&a.cells, &b.cells),
            ),
            (HeapDataRef::FunctionDefaults(a), HeapDataRef::FunctionDefaults(b)) => Ok(a.func_id == b.func_id),
            (HeapDataRef::Range(a), HeapDataRef::Range(b)) => Ok(*a == *b),
            (HeapDataRef::Dataclass(a), HeapDataRef::Dataclass(b)) => {
                if a.type_id == b.type_id {
                    eq_mappings(&a.attrs, &b.attrs, heap, interns, depth)
                } else {
                    Ok(false)
                }
            },
            // LongInt equality
            (HeapDataRef::LongInt(a), HeapDataRef::LongInt(b)) => Ok(a.same(b)),
            // Slice equality
            (HeapDataRef::Slice(a), HeapDataRef::Slice(b)) => Ok(*a == *b),
            // Path equality
            (HeapDataRef::Path(a), HeapDataRef::Path(b)) => Ok(same_text(a.path.as_str(), b.path.as_str())),
            // RePattern equality by pattern string and flags
            (HeapDataRef::RePattern(a), HeapDataRef::RePattern(b)) => Ok(
                same_text(a.pattern.as_str(), b.pattern.as_str()) && a.flags == b.flags,
            ),
            // Cells, classes, exceptions, iterators, modules, matches, and async types compare
            // by identity only (handled at Value level via HeapId comparison).
            _ => Ok(false), // Different types are never equal
        }
    }
}

impl HeapData {
    /// Returns whether two payloads are equal.
    ///
    /// `depth` is the recursion depth at which the comparison starts.
    pub fn py_eq<T: ResourceTracker>(
        &self,
        other: &HeapData,
        heap: &Heap<T>,
        interns: &Interns,
        depth: usize,
    ) -> (r: Result<bool, ResourceError>)
        requires
            scene(heap@, *interns).payload_at_hand(Walk::Compare, *self),
            scene(heap@, *interns).payload_at_hand(Walk::Compare, *other),
        ensures
            r == scene(heap@, *interns).eq_data(*self, *other, depth),
    {
        self.as_ref().py_eq(other.as_ref(), heap, interns, depth)
    }
}

impl<'a> HeapDataMut<'a> {
    /// Returns whether two payloads are equal.
    ///
    /// `depth` is the recursion depth at which the comparison starts.
    pub fn py_eq<T: ResourceTracker>(
        &self,
        other: &HeapDataMut<'_>,
        heap: &Heap<T>,
        interns: &Interns,
        depth: usize,
    ) -> (r: Result<bool, ResourceError>)
        requires
            scene(heap@, *interns).payload_at_hand(Walk::Compare, self.data()),
            scene(heap@, *interns).payload_at_hand(Walk::Compare, other.data()),
        ensures
            r == scene(heap@, *interns).eq_data(self.data(), other.data(), depth),
    {
        self.as_ref().py_eq(other.as_ref(), heap, interns, depth)
    }
}

} // verus!
