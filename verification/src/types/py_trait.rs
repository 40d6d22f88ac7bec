//! What calling an attribute comes to.

use crate::args::ArgValues;
use crate::builtins::Builtins;
use crate::intern::StringId;
use crate::modules::asyncio::AsyncioFunctions;
use crate::modules::re::ReFunctions;
use crate::os::OsFunction;
use crate::value::{EitherStr, Property, Value};
use vstd::prelude::*;

verus! {

/// A regular expression operation, ready for the regex engine.
#[derive(Debug)]
pub struct RegexCall {
    pub function: ReFunctions,
    pub pattern: String,
    pub flags: u16,
    /// The text to search; empty for `compile`.
    pub text: String,
    /// The replacement of `sub`; empty for the others.
    pub repl: String,
    /// How many matches `sub` replaces or `split` splits at; zero for all.
    pub limit: usize,
}

/// The contents of a [`RegexCall`].
#[verifier::ext_equal]
pub struct RegexCallView {
    pub function: ReFunctions,
    pub pattern: Seq<char>,
    pub flags: u16,
    pub text: Seq<char>,
    pub repl: Seq<char>,
    pub limit: usize,
}

impl View for RegexCall {
    type V = RegexCallView;

    open spec fn view(&self) -> RegexCallView {
        RegexCallView {
            function: self.function,
            pattern: self.pattern@,
            flags: self.flags,
            text: self.text@,
            repl: self.repl@,
            limit: self.limit,
        }
    }
}

/// Work for the part of the interpreter that holds the builtin functions, the
/// methods of the builtin types, the event loop and the regex engine.
#[derive(Debug)]
pub enum NativeCall {
    /// Call a builtin function or type.
    Builtin(Builtins, ArgValues),
    /// Call a method of a builtin type.
    Method { receiver: Value, name: EitherStr, args: ArgValues },
    /// Call a function of the `asyncio` module.
    Asyncio(AsyncioFunctions, ArgValues),
    /// Run a regular expression.
    Regex(RegexCall),
}

/// Result of calling an attribute.
#[derive(Debug)]
pub enum AttrCallResult {
    /// The call completed with this value.
    Value(Value),
    /// The host has to perform an OS operation.
    OsCall(OsFunction, ArgValues),
    /// The host has to call an external function.
    ExternalCall(StringId, ArgValues),
    /// The host has to call a method of a dataclass; the instance is the first argument.
    MethodCall(EitherStr, ArgValues),
    /// The value has to be awaited.
    AwaitValue(Value),
    /// Another part of the interpreter has to do the work.
    Native(NativeCall),
}

impl NativeCall {
    /// The values that the call holds.
    pub open spec fn values(self) -> Seq<Value> {
        match self {
            NativeCall::Builtin(_, args) => args.values(),
            NativeCall::Method { receiver, args, .. } => seq![receiver] + args.values(),
            NativeCall::Asyncio(_, args) => args.values(),
            NativeCall::Regex(_) => Seq::empty(),
        }
    }
}

impl AttrCallResult {
    /// The values that the result holds.
    pub open spec fn values(self) -> Seq<Value> {
        match self {
            AttrCallResult::Value(v) => seq![v],
            AttrCallResult::OsCall(_, args) => args.values(),
            AttrCallResult::ExternalCall(_, args) => args.values(),
            AttrCallResult::MethodCall(_, args) => args.values(),
            AttrCallResult::AwaitValue(v) => seq![v],
            AttrCallResult::Native(call) => call.values(),
        }
    }
}

impl Property {
    /// Returns what reading the attribute asks for.
    pub fn get(self) -> (r: AttrCallResult)
        ensures
            self matches Property::Os(f) && r == AttrCallResult::OsCall(f, ArgValues::Empty),
    {
        match self {
            Property::Os(f) => AttrCallResult::OsCall(f, ArgValues::Empty),
        }
    }
}

} // verus!
