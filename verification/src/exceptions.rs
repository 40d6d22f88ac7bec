//! Exceptions and the errors that end an operation.

use crate::resource::ResourceError;
use crate::text::texts;
use crate::types::Type;
use vstd::prelude::*;

verus! {

/// The exception types that the runtime raises or hands to programs.
#[derive(Debug, Clone, Copy, PartialEq, Eq, Structural, Hash)]
pub enum ExcType {
    Exception,
    TypeError,
    ValueError,
    RuntimeError,
    AttributeError,
    NameError,
    KeyError,
    IndexError,
    ZeroDivisionError,
    OverflowError,
    RecursionError,
    MemoryError,
    TimeoutError,
    RePatternError,
}

/// An exception instance: its type and, where it has one, its message.
#[derive(Debug)]
pub struct SimpleException {
    pub exc_type: ExcType,
    pub arg: Option<String>,
}

/// Why an operation failed.
///
/// Errors that the interpreter words itself carry their message. The others
/// carry what the message is made of.
#[derive(Debug)]
pub enum RunError {
    /// A Python exception.
    Exc(SimpleException),
    /// A fault of the interpreter or the compiler, not of the program.
    Internal(String),
    /// A resource limit was hit.
    Resource(ResourceError),
    /// More positional arguments than parameters.
    TooManyPositional { name: String, expected: usize, given: usize, kwargs: usize },
    /// A keyword that names no parameter.
    UnexpectedKeyword { name: String, keyword: String },
    /// A parameter that is given twice.
    DuplicateArgument { name: String, keyword: String },
    /// Required parameters that are not given.
    MissingPositional { name: String, missing: Vec<String> },
    /// A key of a `**` mapping that is not a string.
    NonStringKeyword,
    /// Keyword arguments where none are taken.
    NoKeywords { name: String },
    /// Fewer or more arguments than the function takes.
    WrongArgCount { name: String, min: usize, max: usize, given: usize },
    /// A namedtuple type or field name that is not an identifier.
    InvalidIdentifier(String),
    /// A namedtuple type or field name that is a keyword.
    KeywordName(String),
    /// A namedtuple field name that starts with an underscore.
    UnderscoreField(String),
    /// A namedtuple field name that occurs twice.
    DuplicateField(String),
    /// More namedtuple defaults than fields.
    TooManyDefaults,
    /// The type has no `[]`.
    NotSubscriptable(Type),
    /// The type has no `[] =`.
    NoItemAssignment(Type),
    /// The object has no such attribute.
    AttributeMissing { of: Type, attr: String },
    /// The module has no such attribute.
    ModuleAttributeMissing { module: String, attr: String },
    /// A repeat count that is too large for a sequence.
    OverflowRepeatCount,
    /// Division or modulo by zero.
    ZeroDivision,
    /// The type cannot be iterated over.
    NotIterable(Type),
    /// A value that had to be a string.
    ExpectedStr(Type),
}

/// What a [`RunError`] says, with texts as character sequences.
#[verifier::ext_equal]
pub enum ErrorView {
    Exc(ExcType, Option<Seq<char>>),
    Internal(Seq<char>),
    Resource(ResourceError),
    TooManyPositional { name: Seq<char>, expected: usize, given: usize, kwargs: usize },
    UnexpectedKeyword { name: Seq<char>, keyword: Seq<char> },
    DuplicateArgument { name: Seq<char>, keyword: Seq<char> },
    MissingPositional { name: Seq<char>, missing: Seq<Seq<char>> },
    NonStringKeyword,
    NoKeywords { name: Seq<char> },
    WrongArgCount { name: Seq<char>, min: usize, max: usize, given: usize },
    InvalidIdentifier(Seq<char>),
    KeywordName(Seq<char>),
    UnderscoreField(Seq<char>),
    DuplicateField(Seq<char>),
    TooManyDefaults,
    NotSubscriptable(Type),
    NoItemAssignment(Type),
    AttributeMissing { of: Type, attr: Seq<char> },
    ModuleAttributeMissing { module: Seq<char>, attr: Seq<char> },
    OverflowRepeatCount,
    ZeroDivision,
    NotIterable(Type),
    ExpectedStr(Type),
}

/// The text of an optional string.
pub open spec fn opt_text(s: Option<String>) -> Option<Seq<char>> {
    match s {
        Some(s) => Some(s@),
        None => None,
    }
}

impl View for RunError {
    type V = ErrorView;

    open spec fn view(&self) -> ErrorView {
        match *self {
            RunError::Exc(e) => ErrorView::Exc(e.exc_type, opt_text(e.arg)),
            RunError::Internal(m) => ErrorView::Internal(m@),
            RunError::Resource(e) => ErrorView::Resource(e),
            RunError::TooManyPositional { name, expected, given, kwargs } => ErrorView::TooManyPositional {
                name: name@,
                expected,
                given,
                kwargs,
            },
            RunError::UnexpectedKeyword { name, keyword } => ErrorView::UnexpectedKeyword {
                name: name@,
                keyword: keyword@,
            },
            RunError::DuplicateArgument { name, keyword } => ErrorView::DuplicateArgument {
                name: name@,
                keyword: keyword@,
            },
            RunError::MissingPositional { name, missing } => ErrorView::MissingPositional {
                name: name@,
                missing: texts(missing@),
            },
            RunError::NonStringKeyword => ErrorView::NonStringKeyword,
            RunError::NoKeywords { name } => ErrorView::NoKeywords { name: name@ },
            RunError::WrongArgCount { name, min, max, given } => ErrorView::WrongArgCount { name: name@, min, max, given },
            RunError::InvalidIdentifier(t) => ErrorView::InvalidIdentifier(t@),
            RunError::KeywordName(t) => ErrorView::KeywordName(t@),
            RunError::UnderscoreField(t) => ErrorView::UnderscoreField(t@),
            RunError::DuplicateField(t) => ErrorView::DuplicateField(t@),
            RunError::TooManyDefaults => ErrorView::TooManyDefaults,
            RunError::NotSubscriptable(t) => ErrorView::NotSubscriptable(t),
            RunError::NoItemAssignment(t) => ErrorView::NoItemAssignment(t),
            RunError::AttributeMissing { of, attr } => ErrorView::AttributeMissing { of, attr: attr@ },
            RunError::ModuleAttributeMissing { module, attr } => ErrorView::ModuleAttributeMissing {
                module: module@,
                attr: attr@,
            },
            RunError::OverflowRepeatCount => ErrorView::OverflowRepeatCount,
            RunError::ZeroDivision => ErrorView::ZeroDivision,
            RunError::NotIterable(t) => ErrorView::NotIterable(t),
            RunError::ExpectedStr(t) => ErrorView::ExpectedStr(t),
        }
    }
}

/// A `TypeError` with the given message.
pub open spec fn type_error_view(message: Seq<char>) -> ErrorView {
    ErrorView::Exc(ExcType::TypeError, Some(message))
}

impl RunError {
    /// Makes a `TypeError` with a message.
    pub fn type_error(message: &str) -> (r: RunError)
        ensures
            r@ == type_error_view(message@),
    {
        RunError::Exc(SimpleException { exc_type: ExcType::TypeError, arg: Some(message.to_owned()) })
    }

    /// Makes a `TypeError` from a message that is already owned.
    pub fn type_error_owned(message: String) -> (r: RunError)
        ensures
            r@ == type_error_view(message@),
    {
        RunError::Exc(SimpleException { exc_type: ExcType::TypeError, arg: Some(message) })
    }

    /// Makes an internal error with a message.
    pub fn internal(message: &str) -> (r: RunError)
        ensures
            r@ == ErrorView::Internal(message@),
    {
        RunError::Internal(message.to_owned())
    }

    /// Which exception type a program sees.
    pub open spec fn spec_exc_type(self) -> Option<ExcType> {
        match self {
            RunError::Exc(e) => Some(e.exc_type),
            RunError::Internal(_) => None,
            RunError::Resource(ResourceError::Recursion { .. }) => Some(ExcType::RecursionError),
            RunError::Resource(ResourceError::Time { .. }) => Some(ExcType::TimeoutError),
            RunError::Resource(_) => Some(ExcType::MemoryError),
            RunError::InvalidIdentifier(_) => Some(ExcType::ValueError),
            RunError::KeywordName(_) => Some(ExcType::ValueError),
            RunError::UnderscoreField(_) => Some(ExcType::ValueError),
            RunError::DuplicateField(_) => Some(ExcType::ValueError),
            RunError::AttributeMissing { .. } => Some(ExcType::AttributeError),
            RunError::ModuleAttributeMissing { .. } => Some(ExcType::AttributeError),
            RunError::OverflowRepeatCount => Some(ExcType::OverflowError),
            RunError::ZeroDivision => Some(ExcType::ZeroDivisionError),
            _ => Some(ExcType::TypeError),
        }
    }

    /// Returns the exception type that a program sees, or `None` for a fault of
    /// the interpreter, which no program can catch.
    pub fn exc_type(&self) -> (r: Option<ExcType>)
        ensures
            r == self.spec_exc_type(),
    {
        match self {
            RunError::Exc(e) => Some(e.exc_type),
            RunError::Internal(_) => None,
            RunError::Resource(ResourceError::Recursion { .. }) => Some(ExcType::RecursionError),
            RunError::Resource(ResourceError::Time { .. }) => Some(ExcType::TimeoutError),
            RunError::Resource(_) => Some(ExcType::MemoryError),
            RunError::InvalidIdentifier(_) => Some(ExcType::ValueError),
            RunError::KeywordName(_) => Some(ExcType::ValueError),
            RunError::UnderscoreField(_) => Some(ExcType::ValueError),
            RunError::DuplicateField(_) => Some(ExcType::ValueError),
            RunError::AttributeMissing { .. } => Some(ExcType::AttributeError),
            RunError::ModuleAttributeMissing { .. } => Some(ExcType::AttributeError),
            RunError::OverflowRepeatCount => Some(ExcType::OverflowError),
            RunError::ZeroDivision => Some(ExcType::ZeroDivisionError),
            _ => Some(ExcType::TypeError),
        }
    }
}

} // verus!
