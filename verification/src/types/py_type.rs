//! The type of a Python value, and the name that messages give it.

use crate::exceptions::ExcType;
use vstd::prelude::*;

verus! {

/// The type of a Python value.
#[derive(Debug, Clone, Copy, PartialEq, Eq, Structural, Hash)]
pub enum Type {
    NoneType,
    Bool,
    Int,
    Str,
    Bytes,
    List,
    Tuple,
    NamedTuple,
    Dict,
    PySet,
    FrozenSet,
    Range,
    Slice,
    Iterator,
    Dataclass,
    Exception(ExcType),
    Function,
    BuiltinFunction,
    Cell,
    Module,
    Coroutine,
    Path,
    RePattern,
    ReMatch,
    Property,
    SpecialForm,
    Type,
}

impl ExcType {
    /// The exception's name.
    pub open spec fn name(self) -> Seq<char> {
        match self {
            ExcType::Exception => "Exception"@,
            ExcType::TypeError => "TypeError"@,
            ExcType::ValueError => "ValueError"@,
            ExcType::RuntimeError => "RuntimeError"@,
            ExcType::AttributeError => "AttributeError"@,
            ExcType::NameError => "NameError"@,
            ExcType::KeyError => "KeyError"@,
            ExcType::IndexError => "IndexError"@,
            ExcType::ZeroDivisionError => "ZeroDivisionError"@,
            ExcType::OverflowError => "OverflowError"@,
            ExcType::RecursionError => "RecursionError"@,
            ExcType::MemoryError => "MemoryError"@,
            ExcType::TimeoutError => "TimeoutError"@,
            ExcType::RePatternError => "PatternError"@,
        }
    }

    /// Returns the exception's name.
    pub fn as_str(self) -> (r: &'static str)
        ensures
            r@ == self.name(),
    {
        match self {
            ExcType::Exception => "Exception",
            ExcType::TypeError => "TypeError",
            ExcType::ValueError => "ValueError",
            ExcType::RuntimeError => "RuntimeError",
            ExcType::AttributeError => "AttributeError",
            ExcType::NameError => "NameError",
            ExcType::KeyError => "KeyError",
            ExcType::IndexError => "IndexError",
            ExcType::ZeroDivisionError => "ZeroDivisionError",
            ExcType::OverflowError => "OverflowError",
            ExcType::RecursionError => "RecursionError",
            ExcType::MemoryError => "MemoryError",
            ExcType::TimeoutError => "TimeoutError",
            ExcType::RePatternError => "PatternError",
        }
    }
}

impl Type {
    /// The name that messages give the type.
    pub open spec fn name(self) -> Seq<char> {
        match self {
            Type::NoneType => "NoneType"@,
            Type::Bool => "bool"@,
            Type::Int => "int"@,
            Type::Str => "str"@,
            Type::Bytes => "bytes"@,
            Type::List => "list"@,
            Type::Tuple => "tuple"@,
            Type::NamedTuple => "namedtuple"@,
            Type::Dict => "dict"@,
            Type::PySet => "set"@,
            Type::FrozenSet => "frozenset"@,
            Type::Range => "range"@,
            Type::Slice => "slice"@,
            Type::Iterator => "iterator"@,
            Type::Dataclass => "dataclass"@,
            Type::Exception(e) => e.name(),
            Type::Function => "function"@,
            Type::BuiltinFunction => "builtin_function_or_method"@,
            Type::Cell => "cell"@,
            Type::Module => "module"@,
            Type::Coroutine => "coroutine"@,
            Type::Path => "PosixPath"@,
            Type::RePattern => "re.Pattern"@,
            Type::ReMatch => "re.Match"@,
            Type::Property => "property"@,
            Type::SpecialForm => "_SpecialForm"@,
            Type::Type => "type"@,
        }
    }

    /// Returns the name that messages give the type.
    pub fn as_str(self) -> (r: &'static str)
        ensures
            r@ == self.name(),
    {
        match self {
            Type::NoneType => "NoneType",
            Type::Bool => "bool",
            Type::Int => "int",
            Type::Str => "str",
            Type::Bytes => "bytes",
            Type::List => "list",
            Type::Tuple => "tuple",
            Type::NamedTuple => "namedtuple",
            Type::Dict => "dict",
            Type::PySet => "set",
            Type::FrozenSet => "frozenset",
            Type::Range => "range",
            Type::Slice => "slice",
            Type::Iterator => "iterator",
            Type::Dataclass => "dataclass",
            Type::Exception(e) => e.as_str(),
            Type::Function => "function",
            Type::BuiltinFunction => "builtin_function_or_method",
            Type::Cell => "cell",
            Type::Module => "module",
            Type::Coroutine => "coroutine",
            Type::Path => "PosixPath",
            Type::RePattern => "re.Pattern",
            Type::ReMatch => "re.Match",
            Type::Property => "property",
            Type::SpecialForm => "_SpecialForm",
            Type::Type => "type",
        }
    }
}

} // verus!
