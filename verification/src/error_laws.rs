//! Which exception a program sees for what went wrong.

use crate::args::{arity_error, expect_text};
use crate::equality::Scene;
use crate::exceptions::{ErrorView, ExcType, RunError};
use crate::resource::{ResourceError, ResourceTracker};
use crate::value::Value;
use vstd::prelude::*;

verus! {

/// A program sees the exception that fits what went wrong, and none where the interpreter
/// itself is at fault. Names that cannot be used are wrong values, and arguments that do not
/// fit are wrong types.
pub proof fn exceptions_tell_what_went_wrong(e: RunError)
    ensures
        e@ matches ErrorView::Exc(t, _) ==> e.spec_exc_type() == Some(t),
        e@ is Internal <==> e.spec_exc_type() is None,
        e@ matches ErrorView::Resource(r) ==> e.spec_exc_type() == Some(
            match r {
                ResourceError::Recursion { .. } => ExcType::RecursionError,
                ResourceError::Time { .. } => ExcType::TimeoutError,
                ResourceError::Memory { .. } | ResourceError::Allocation { .. } => ExcType::MemoryError,
            },
        ),
        e@ is InvalidIdentifier || e@ is KeywordName || e@ is UnderscoreField || e@ is DuplicateField
            ==> e.spec_exc_type() == Some(ExcType::ValueError),
        e@ is AttributeMissing || e@ is ModuleAttributeMissing ==> e.spec_exc_type() == Some(ExcType::AttributeError),
        e@ is ZeroDivision ==> e.spec_exc_type() == Some(ExcType::ZeroDivisionError),
        e@ is OverflowRepeatCount ==> e.spec_exc_type() == Some(ExcType::OverflowError),
        e@ is TooManyPositional || e@ is UnexpectedKeyword || e@ is DuplicateArgument || e@ is MissingPositional
            || e@ is NonStringKeyword || e@ is NoKeywords || e@ is WrongArgCount || e@ is TooManyDefaults
            || e@ is NotSubscriptable || e@ is NoItemAssignment || e@ is NotIterable || e@ is ExpectedStr
            ==> e.spec_exc_type() == Some(ExcType::TypeError),
{
}

/// A text is expected and found just where the value is a string, and the error gives the
/// type of any other value.
pub proof fn expected_texts_are_those_of_strings<T: ResourceTracker>(s: Scene<T>, v: Value)
    ensures
        match expect_text(s, v) {
            Ok(t) => s.text(v) == Some(t),
            Err(e) => s.text(v) is None && e == ErrorView::ExpectedStr(s.type_of(v)),
        },
{
}

/// Arguments that a function does not take are refused for keywords first, and else for
/// their number.
pub proof fn refusals_give_the_number_of_arguments(name: Seq<char>, min: usize, max: usize, given: nat, keywords: nat)
    ensures
        match arity_error(name, min, max, given, keywords) {
            ErrorView::NoKeywords { name: of } => of == name && keywords > 0,
            ErrorView::WrongArgCount { name: of, min: low, max: high, given: n } => {
                &&& of == name && low == min && high == max
                &&& n == given as usize && keywords == 0
            },
            _ => false,
        },
{
}

} // verus!
