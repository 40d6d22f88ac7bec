//! Types without, or with a single, heap reference.

use crate::value::{EitherStr, Value};
use vstd::prelude::*;

verus! {

/// A Python `range`.
#[derive(Debug, Clone, Copy, PartialEq, Eq, Structural)]
pub struct Range {
    pub start: i64,
    pub stop: i64,
    pub step: i64,
}

/// A Python `slice`.
#[derive(Debug, Clone, Copy, PartialEq, Eq, Structural)]
pub struct Slice {
    pub start: Option<i64>,
    pub stop: Option<i64>,
    pub step: Option<i64>,
}

/// An iterator: the object that it runs over, and how many items it has given.
#[derive(Debug, Clone, Copy, PartialEq, Eq, Structural)]
pub struct MontyIter {
    pub value: Value,
    pub index: usize,
}

/// A skeletal class from `class Foo: pass`.
#[derive(Debug)]
pub struct Class {
    pub name: EitherStr,
}

/// A `pathlib.Path`.
#[derive(Debug)]
pub struct Path {
    pub path: String,
}

/// A regular expression from `re.compile()`: its source and flags. The compiled
/// form is rebuilt from these two.
#[derive(Debug)]
pub struct RePattern {
    pub pattern: String,
    pub flags: u16,
}

/// A match of a regular expression.
#[derive(Debug)]
pub struct ReMatch {
    /// The text that was searched.
    pub string: String,
    /// The first and last position of each group, the whole match first.
    pub spans: Vec<Option<(usize, usize)>>,
}

} // verus!
