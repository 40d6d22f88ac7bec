//! Builtin callables.

use crate::exceptions::ExcType;
use crate::types::Type;
use vstd::prelude::*;

verus! {

/// A builtin function, by its number in the interpreter's table.
#[derive(Debug, Clone, Copy, PartialEq, Eq, Structural, Hash)]
pub struct BuiltinsFunctions(pub u8);

/// A builtin value that can be called.
#[derive(Debug, Clone, Copy, PartialEq, Eq, Structural, Hash)]
pub enum Builtins {
    /// A function such as `len`.
    Function(BuiltinsFunctions),
    /// An exception type such as `ValueError`.
    ExcType(ExcType),
    /// A type such as `list`.
    Type(Type),
}

} // verus!
