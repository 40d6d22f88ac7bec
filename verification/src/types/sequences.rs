//! Strings, bytes, lists, tuples and named tuples.

use crate::value::{EitherStr, Value};
use smallvec::SmallVec;
use vstd::prelude::*;

verus! {

/// A Python `str` of its own.
#[derive(Debug)]
pub struct Str {
    pub value: String,
}

impl Str {
    /// Makes a string.
    pub fn new(value: String) -> (r: Str)
        ensures
            r.value == value,
    {
        Str { value }
    }

    /// Returns the text.
    pub fn as_str(&self) -> (r: &str)
        ensures
            r@ == self.value@,
    {
        self.value.as_str()
    }
}

/// A Python `bytes` of its own.
#[derive(Debug)]
pub struct Bytes {
    pub value: Vec<u8>,
}

impl Bytes {
    /// Makes a byte string.
    pub fn new(value: Vec<u8>) -> (r: Bytes)
        ensures
            r.value == value,
    {
        Bytes { value }
    }

    /// Returns the bytes.
    pub fn as_slice(&self) -> (r: &[u8])
        ensures
            r@ == self.value@,
    {
        self.value.as_slice()
    }
}

/// A Python `list`.
#[derive(Debug)]
pub struct List {
    pub items: Vec<Value>,
}

impl List {
    /// Makes a list.
    pub fn new(items: Vec<Value>) -> (r: List)
        ensures
            r.items == items,
    {
        List { items }
    }

    /// Returns the items.
    pub fn as_slice(&self) -> (r: &[Value])
        ensures
            r@ == self.items@,
    {
        self.items.as_slice()
    }
}

/// The items of a tuple: up to three are stored in place.
#[verifier::external_body]
#[derive(Debug)]
pub struct TupleVec {
    items: SmallVec<[Value; 3]>,
}

/// The items that a tuple's storage holds.
pub uninterp spec fn tuple_items(t: TupleVec) -> Seq<Value>;

/// `SmallVec::from_vec`: holds the items of the vector, in order.
#[verifier::external_body]
fn tuple_from_vec(items: Vec<Value>) -> (r: TupleVec)
    ensures
        tuple_items(r) == items@,
{
    TupleVec { items: SmallVec::from_vec(items) }
}

/// `SmallVec::as_slice`: the items, in order.
#[verifier::external_body]
fn tuple_as_slice(t: &TupleVec) -> (r: &[Value])
    ensures
        r@ == tuple_items(*t),
{
    t.items.as_slice()
}

/// A Python `tuple`.
#[derive(Debug)]
pub struct Tuple {
    pub storage: TupleVec,
}

impl View for Tuple {
    type V = Seq<Value>;

    open spec fn view(&self) -> Seq<Value> {
        tuple_items(self.storage)
    }
}

impl Tuple {
    /// Makes a tuple.
    pub fn new(items: Vec<Value>) -> (r: Tuple)
        ensures
            r@ == items@,
    {
        Tuple { storage: tuple_from_vec(items) }
    }

    /// Returns the items.
    pub fn as_slice(&self) -> (r: &[Value])
        ensures
            r@ == self@,
    {
        tuple_as_slice(&self.storage)
    }
}

/// An instance of a namedtuple type.
#[derive(Debug)]
pub struct NamedTuple {
    /// The type's name, as the instance's repr shows it.
    pub name: EitherStr,
    /// The names of the fields, in order.
    pub field_names: Vec<EitherStr>,
    /// The values of the fields, in order.
    pub items: Vec<Value>,
}

impl NamedTuple {
    /// Makes an instance.
    pub fn new(name: EitherStr, field_names: Vec<EitherStr>, items: Vec<Value>) -> (r: NamedTuple)
        ensures
            r.name == name,
            r.field_names == field_names,
            r.items == items,
    {
        NamedTuple { name, field_names, items }
    }

    /// Returns the values of the fields.
    pub fn as_vec(&self) -> (r: &[Value])
        ensures
            r@ == self.items@,
    {
        self.items.as_slice()
    }
}

} // verus!
