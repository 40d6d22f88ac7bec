//! Implementation of the `re` module.
//!
//! Provides regular expression matching operations. This module decides what a
//! call asks for: it checks and converts the arguments, and hands the operation to
//! the regex engine as a [`RegexCall`].
//!
//! # Supported module-level functions
//!
//! - `re.compile(pattern, flags=0)` → `re.Pattern`
//! - `re.search(pattern, string, flags=0)` → `re.Match` or `None`
//! - `re.match(pattern, string, flags=0)` → `re.Match` or `None`
//! - `re.fullmatch(pattern, string, flags=0)` → `re.Match` or `None`
//! - `re.findall(pattern, string, flags=0)` → `list`
//! - `re.sub(pattern, repl, string, count=0, flags=0)` → `str`
//! - `re.split(pattern, string, maxsplit=0, flags=0)` → `list`
//! - `re.finditer(pattern, string, flags=0)` → iterator of `re.Match`
//! - `re.escape(pattern)` → `str`
//!
//! # Module attributes
//!
//! - `re.NOFLAG` - no flag (value: 0)
//! - `re.IGNORECASE` / `re.I` — case-insensitive matching (value: 2)
//! - `re.MULTILINE` / `re.M` — `^`/`$` match at line boundaries (value: 8)
//! - `re.DOTALL` / `re.S` — `.` matches newlines (value: 16)
//! - `re.ASCII` / `re.A` — ASCII-only matching for `\w`, `\d`, `\s` (value: 256)
//! - `re.PatternError` / `re.error` — exception type for invalid patterns

use crate::args::{
    ArgValues, arg_values, arity_error, expect_text, gives_back, owns, push_entries, spares_others, value_to_str,
};
use crate::builtins::Builtins;
use crate::equality::{Scene, scene};
use crate::exceptions::{ErrorView, ExcType, RunError, type_error_view};
use crate::heap::{Heap, HeapModel, allocation_balances};
use crate::heap_data::{HeapData, child_ids};
use crate::heap_model::{kept, outside, readable, sound};
use crate::intern::Interns;
use crate::modules::ModuleFunctions;
use crate::modules::attributes::{Attribute, build_module, distinct_names, makes_module};
use crate::resource::{ResourceError, ResourceTracker};
use crate::static_strings::StaticStrings;
use crate::text::{join2, join3, same_text};
use crate::types::Type;
use crate::types::lookup::legible;
use crate::types::mappings::DictEntry;
use crate::types::py_trait::{AttrCallResult, NativeCall, RegexCall, RegexCallView};
use crate::types::sequences::Str;
use crate::value::{HeapId, Value, holds, lemma_holds_one, refs, tally};
use vstd::prelude::*;

verus! {

/// Python regex flag: no flag being applied.
pub const NOFLAG: u16 = 0;

/// Python regex flag: case-insensitive matching.
pub const IGNORECASE: u16 = 2;

/// Python regex flag: `^` and `$` match at line boundaries.
pub const MULTILINE: u16 = 8;

/// Python regex flag: `.` matches newlines.
pub const DOTALL: u16 = 16;

/// Python regex flag: ASCII-only matching for `\w`, `\b`, `\d`, `\s`.
pub const ASCII: u16 = 256;

/// Functions exposed by the `re` module.
///
/// Each variant corresponds to a module-level function that can be called directly
/// (e.g., `re.search(pattern, string)`). These are convenience wrappers that compile
/// the pattern on each call — for repeated use, `re.compile()` avoids recompilation.
#[derive(Debug, Clone, Copy, PartialEq, Eq, Structural, Hash)]
pub enum ReFunctions {
    /// `re.compile(pattern, flags=0)` — compile a pattern into a `re.Pattern` object.
    Compile,
    /// `re.search(pattern, string, flags=0)` — find first match anywhere in the string.
    Search,
    /// `re.match(pattern, string, flags=0)` — match anchored at the start.
    Match,
    /// `re.fullmatch(pattern, string, flags=0)` — match the entire string.
    Fullmatch,
    /// `re.findall(pattern, string, flags=0)` — return all non-overlapping matches.
    Findall,
    /// `re.sub(pattern, repl, string, count=0, flags=0)` — substitute matches.
    Sub,
    /// `re.split(pattern, string, maxsplit=0, flags=0)` — split string by pattern.
    Split,
    /// `re.finditer(pattern, string, flags=0)` — return iterator over all matches.
    Finditer,
    /// `re.escape(pattern)` — escape all non-alphanumeric characters in pattern.
    Escape,
}

impl ReFunctions {
    /// The function's name.
    pub open spec fn name(self) -> Seq<char> {
        match self {
            ReFunctions::Compile => "compile"@,
            ReFunctions::Search => "search"@,
            ReFunctions::Match => "match"@,
            ReFunctions::Fullmatch => "fullmatch"@,
            ReFunctions::Findall => "findall"@,
            ReFunctions::Sub => "sub"@,
            ReFunctions::Split => "split"@,
            ReFunctions::Finditer => "finditer"@,
            ReFunctions::Escape => "escape"@,
        }
    }

    /// Returns the function's name.
    pub fn as_str(self) -> (r: &'static str)
        ensures
            r@ == self.name(),
    {
        match self {
            ReFunctions::Compile => "compile",
            ReFunctions::Search => "search",
            ReFunctions::Match => "match",
            ReFunctions::Fullmatch => "fullmatch",
            ReFunctions::Findall => "findall",
            ReFunctions::Sub => "sub",
            ReFunctions::Split => "split",
            ReFunctions::Finditer => "finditer",
            ReFunctions::Escape => "escape",
        }
    }

    /// The function's name as messages give it.
    pub open spec fn full_name(self) -> Seq<char> {
        match self {
            ReFunctions::Compile => "re.compile"@,
            ReFunctions::Search => "re.search"@,
            ReFunctions::Match => "re.match"@,
            ReFunctions::Fullmatch => "re.fullmatch"@,
            ReFunctions::Findall => "re.findall"@,
            ReFunctions::Sub => "re.sub"@,
            ReFunctions::Split => "re.split"@,
            ReFunctions::Finditer => "re.finditer"@,
            ReFunctions::Escape => "re.escape"@,
        }
    }

    /// Returns the function's name as messages give it.
    fn full_str(self) -> (r: &'static str)
        ensures
            r@ == self.full_name(),
    {
        match self {
            ReFunctions::Compile => "re.compile",
            ReFunctions::Search => "re.search",
            ReFunctions::Match => "re.match",
            ReFunctions::Fullmatch => "re.fullmatch",
            ReFunctions::Findall => "re.findall",
            ReFunctions::Sub => "re.sub",
            ReFunctions::Split => "re.split",
            ReFunctions::Finditer => "re.finditer",
            ReFunctions::Escape => "re.escape",
        }
    }
}

/// What a call comes to: an operation for the regex engine, or a text.
pub enum RePlan {
    Regex(RegexCall),
    Text(String),
}

/// The contents of a [`RePlan`].
#[verifier::ext_equal]
pub enum RePlanView {
    Regex(RegexCallView),
    Text(Seq<char>),
}

impl View for RePlan {
    type V = RePlanView;

    open spec fn view(&self) -> RePlanView {
        match *self {
            RePlan::Regex(c) => RePlanView::Regex(c@),
            RePlan::Text(t) => RePlanView::Text(t@),
        }
    }
}

/// The value at an optional position.
pub open spec fn value_at(all: Seq<Value>, i: Option<usize>) -> Option<Value> {
    match i {
        Some(i) => Some(all[i as int]),
        None => None,
    }
}

/// The message that a required argument is missing.
pub open spec fn missing(func: Seq<char>, name: Seq<char>) -> ErrorView {
    type_error_view(func + "() missing required argument: '"@ + name + "'"@)
}

fn missing_error(func: &str, name: &str) -> (r: RunError)
    ensures
        r@ == missing(func@, name@),
{
    let mut m: String = join3(func, "() missing required argument: '", name);
    m.append("'");
    RunError::type_error_owned(m)
}

// ---------------------------------------------------------------------------
// Single arguments
// ---------------------------------------------------------------------------

/// The flags that an optional value stands for: a non-negative integer that fits
/// in 16 bits.
pub open spec fn flags_of<T: ResourceTracker>(s: Scene<T>, v: Option<Value>) -> Result<u16, ErrorView> {
    match v {
        Some(Value::Int(n)) => if 0 <= n <= u16::MAX {
            Ok(n as u16)
        } else {
            Err(type_error_view("flags must be a non-negative integer"@))
        },
        // CPython treats bool as int subclass: True=1, False=0.
        Some(Value::Bool(b)) => Ok(if b { 1 } else { 0 }),
        Some(other) => Err(type_error_view("expected int for flags, not "@ + s.type_of(other).name())),
        None => Ok(0),
    }
}

/// Extracts a flags value from an optional `Value`, validating it is a non-negative integer
/// that fits in a `u16`.
pub fn extract_flags<T: ResourceTracker>(flags_val: Option<Value>, heap: &Heap<T>, interns: &Interns) -> (r: Result<
    u16,
    RunError,
>)
    requires
        flags_val matches Some(Value::Ref(id)) ==> readable(heap@.entries, id),
    ensures
        match r {
            Ok(flags) => flags_of(scene(heap@, *interns), flags_val) == Ok::<u16, ErrorView>(flags),
            Err(e) => flags_of(scene(heap@, *interns), flags_val) == Err::<u16, ErrorView>(e@),
        },
{
    match flags_val {
        Some(Value::Int(n)) => {
            if 0 <= n && n <= u16::MAX as i64 {
                Ok(n as u16)
            } else {
                Err(RunError::type_error("flags must be a non-negative integer"))
            }
        },
        // CPython treats bool as int subclass: True=1, False=0.
        Some(Value::Bool(b)) => Ok(if b { 1 } else { 0 }),
        Some(other) => Err(
            RunError::type_error_owned(join2("expected int for flags, not ", other.py_type(heap, interns).as_str())),
        ),
        None => Ok(0),
    }
}

/// The limit that an optional value stands for; zero where it is not given or negative.
pub open spec fn maxsplit_of<T: ResourceTracker>(s: Scene<T>, v: Option<Value>) -> Result<usize, ErrorView> {
    match v {
        None => Ok(0),
        Some(Value::Int(n)) => if n <= 0 {
            Ok(0)
        } else {
            Ok(n as usize)
        },
        Some(Value::Bool(b)) => Ok(if b { 1 } else { 0 }),
        Some(other) => Err(type_error_view("expected int for maxsplit, not "@ + s.type_of(other).name())),
    }
}

/// Extracts a `maxsplit` value from an optional `Value`.
///
/// Returns 0 if not provided. Negative values are treated as 0 (split all).
pub fn extract_maxsplit<T: ResourceTracker>(val: Option<Value>, heap: &Heap<T>, interns: &Interns) -> (r: Result<
    usize,
    RunError,
>)
    requires
        val matches Some(Value::Ref(id)) ==> readable(heap@.entries, id),
    ensures
        match r {
            Ok(n) => maxsplit_of(scene(heap@, *interns), val) == Ok::<usize, ErrorView>(n),
            Err(e) => maxsplit_of(scene(heap@, *interns), val) == Err::<usize, ErrorView>(e@),
        },
{
    match val {
        None => Ok(0),
        Some(Value::Int(n)) => {
            if n <= 0 {
                Ok(0)
            } else {
                Ok(n as usize)
            }
        },
        Some(Value::Bool(b)) => Ok(if b { 1 } else { 0 }),
        Some(other) => Err(
            RunError::type_error_owned(join2("expected int for maxsplit, not ", other.py_type(heap, interns).as_str())),
        ),
    }
}

// ---------------------------------------------------------------------------
// search, match, fullmatch, findall, finditer
// ---------------------------------------------------------------------------

/// What a function of a pattern, a string and optional flags is asked to do.
pub open spec fn plan_search<T: ResourceTracker>(s: Scene<T>, f: ReFunctions, pos: Seq<Value>) -> Result<
    RePlanView,
    ErrorView,
> {
    if pos.len() < 1 {
        Err(missing(f.full_name(), "pattern"@))
    } else if pos.len() < 2 {
        Err(missing(f.full_name(), "string"@))
    } else {
        match flags_of(s, if pos.len() > 2 { Some(pos[2]) } else { None }) {
            Err(e) => Err(e),
            Ok(flags) => if pos.len() > 3 {
                Err(type_error_view(f.full_name() + "() takes at most 3 positional arguments"@))
            } else {
                match (expect_text(s, pos[0]), expect_text(s, pos[1])) {
                    (Err(e), _) => Err(e),
                    (_, Err(e)) => Err(e),
                    (Ok(pattern), Ok(text)) => Ok(
                        RePlanView::Regex(
                            RegexCallView { function: f, pattern, flags, text, repl: Seq::empty(), limit: 0 },
                        ),
                    ),
                }
            },
        }
    }
}

/// Extracts pattern, string, and optional flags for `re.search()`, `re.match()`,
/// `re.fullmatch()`, and `re.findall()`.
///
/// Accepts 2 or 3 positional arguments: `(pattern, string)` or `(pattern, string, flags)`.
pub fn extract_pattern_string_flags<T: ResourceTracker>(
    f: ReFunctions,
    pos: &Vec<Value>,
    heap: &Heap<T>,
    interns: &Interns,
) -> (r: Result<RePlan, RunError>)
    requires
        legible(scene(heap@, *interns), pos@),
    ensures
        match r {
            Ok(plan) => plan_search(scene(heap@, *interns), f, pos@) == Ok::<RePlanView, ErrorView>(plan@),
            Err(e) => plan_search(scene(heap@, *interns), f, pos@) == Err::<RePlanView, ErrorView>(e@),
        },
{
    let ghost s = scene(heap@, *interns);
    if pos.len() < 1 {
        return Err(missing_error(f.full_str(), "pattern"));
    }
    if pos.len() < 2 {
        return Err(missing_error(f.full_str(), "string"));
    }
    proof {
        assert(s.has(pos@[0]) && s.has(pos@[1]));
    }
    let flags_val: Option<Value> = if pos.len() > 2 { Some(pos[2]) } else { None };
    let flags: u16 = match extract_flags(flags_val, heap, interns) {
        Ok(flags) => flags,
        Err(e) => {
            return Err(e);
        },
    };
    if pos.len() > 3 {
        return Err(RunError::type_error_owned(join2(f.full_str(), "() takes at most 3 positional arguments")));
    }
    let pattern: String = match value_to_str(pos[0], heap, interns) {
        Ok(t) => t,
        Err(e) => {
            return Err(e);
        },
    };
    let text: String = match value_to_str(pos[1], heap, interns) {
        Ok(t) => t,
        Err(e) => {
            return Err(e);
        },
    };
    let repl: String = String::new();
    proof {
        assert(repl@ =~= Seq::empty());
    }
    Ok(RePlan::Regex(RegexCall { function: f, pattern, flags, text, repl, limit: 0 }))
}

// ---------------------------------------------------------------------------
// compile, escape
// ---------------------------------------------------------------------------

/// What `re.compile` is asked to do.
pub open spec fn plan_compile<T: ResourceTracker>(s: Scene<T>, pos: Seq<Value>) -> Result<RePlanView, ErrorView> {
    match expect_text(s, pos[0]) {
        Err(e) => Err(e),
        Ok(pattern) => match flags_of(s, if pos.len() > 1 { Some(pos[1]) } else { None }) {
            Err(e) => Err(e),
            Ok(flags) => Ok(
                RePlanView::Regex(
                    RegexCallView {
                        function: ReFunctions::Compile,
                        pattern,
                        flags,
                        text: Seq::empty(),
                        repl: Seq::empty(),
                        limit: 0,
                    },
                ),
            ),
        },
    }
}

/// Is the character escaped by `re.escape()`?
///
/// Matches CPython's `_special_chars_map` — only regex metacharacters and whitespace.
pub open spec fn is_special(c: char) -> bool {
    ||| c == '\t'
    ||| c == '\n'
    ||| c == '\x0b'
    ||| c == '\x0c'
    ||| c == '\r'
    ||| c == ' '
    ||| c == '#'
    ||| c == '$'
    ||| c == '&'
    ||| c == '('
    ||| c == ')'
    ||| c == '*'
    ||| c == '+'
    ||| c == '-'
    ||| c == '.'
    ||| c == '?'
    ||| c == '['
    ||| c == '\\'
    ||| c == ']'
    ||| c == '^'
    ||| c == '{'
    ||| c == '|'
    ||| c == '}'
    ||| c == '~'
}

/// Returns whether a character should be escaped by `re.escape()`.
pub fn should_escape(c: char) -> (r: bool)
    ensures
        r == is_special(c),
{
    matches!(
        c,
        '\t' | '\n'
            | '\x0b'
            | '\x0c'
            | '\r'
            | ' '
            | '#'
            | '$'
            | '&'
            | '('
            | ')'
            | '*'
            | '+'
            | '-'
            | '.'
            | '?'
            | '['
            | '\\'
            | ']'
            | '^'
            | '{'
            | '|'
            | '}'
            | '~'
    )
}

/// A text with a backslash before each special character.
pub open spec fn escape_text(t: Seq<char>) -> Seq<char>
    decreases t.len(),
{
    if t.len() == 0 {
        Seq::empty()
    } else if is_special(t.last()) {
        escape_text(t.drop_last()).push('\\').push(t.last())
    } else {
        escape_text(t.drop_last()).push(t.last())
    }
}

/// What a text is without the backslashes that stand before a special character.
pub open spec fn unescape_text(t: Seq<char>) -> Seq<char>
    decreases t.len(),
{
    if t.len() == 0 {
        Seq::empty()
    } else if t.len() >= 2 && is_special(t.last()) && t[t.len() - 2] == '\\' {
        unescape_text(t.drop_last().drop_last()).push(t.last())
    } else {
        unescape_text(t.drop_last()).push(t.last())
    }
}

/// Taking the backslashes out again gives back the text.
pub proof fn escaping_can_be_undone(t: Seq<char>)
    ensures
        unescape_text(escape_text(t)) == t,
    decreases t.len(),
{
    if t.len() > 0 {
        let rest = t.drop_last();
        let c = t.last();
        escaping_can_be_undone(rest);
        let head = escape_text(rest);
        if is_special(c) {
            let all = head.push('\\').push(c);
            assert(all.drop_last() =~= head.push('\\'));
            assert(all.drop_last().drop_last() =~= head);
            assert(all[all.len() - 2] == '\\');
            assert(unescape_text(all) == unescape_text(head).push(c));
        } else {
            let all = head.push(c);
            assert(all.drop_last() =~= head);
            assert(unescape_text(all) == unescape_text(head).push(c));
        }
        assert(rest.push(c) =~= t);
    } else {
        assert(unescape_text(escape_text(t)) =~= t);
    }
}

/// Different texts are escaped differently.
pub proof fn escaping_is_injective(a: Seq<char>, b: Seq<char>)
    requires
        escape_text(a) == escape_text(b),
    ensures
        a == b,
{
    escaping_can_be_undone(a);
    escaping_can_be_undone(b);
}

/// Writes a text with a backslash before each special character.
pub fn escape_pattern(t: &str) -> (r: String)
    ensures
        r@ == escape_text(t@),
{
    let n: usize = t.unicode_len();
    let mut result: String = String::new();
    let mut i: usize = 0;
    proof {
        assert(t@.take(0) =~= Seq::empty());
        assert(result@ =~= Seq::empty());
    }
    while i < n
        invariant
            i <= n,
            n == t@.len(),
            result@ == escape_text(t@.take(i as int)),
        decreases n - i,
    {
        let c: char = t.get_char(i);
        proof {
            assert(t@.take(i + 1).drop_last() =~= t@.take(i as int));
        }
        if should_escape(c) {
            result.push('\\');
        }
        result.push(c);
        i = i + 1;
    }
    proof {
        assert(t@.take(n as int) =~= t@);
    }
    result
}

// ---------------------------------------------------------------------------
// sub, split
// ---------------------------------------------------------------------------

/// The outcome of a walk over keyword arguments: the positions of the values that
/// were given for the two keywords, and the error that ended the walk, if any.
#[verifier::ext_equal]
pub struct Scan {
    pub error: Option<ErrorView>,
    pub first: Option<usize>,
    pub flags: Option<usize>,
}

/// The error for an argument that is given by position and by keyword.
pub open spec fn twice(func: Seq<char>, name: Seq<char>) -> ErrorView {
    type_error_view(func + "() got multiple values for argument '"@ + name + "'"@)
}

fn twice_error(func: &str, name: &str) -> (r: RunError)
    ensures
        r@ == twice(func@, name@),
{
    let mut m: String = join3(func, "() got multiple values for argument '", name);
    m.append("'");
    RunError::type_error_owned(m)
}

/// Walks over the keyword arguments of a function that takes `name` and `flags`.
///
/// `all` holds the arguments, each keyword before its value; the next keyword is
/// at `next`. A keyword that is given again replaces what was given before.
pub open spec fn scan<T: ResourceTracker>(
    s: Scene<T>,
    func: Seq<char>,
    name: Seq<char>,
    all: Seq<Value>,
    next: nat,
    has_first: bool,
    has_flags: bool,
    first: Option<usize>,
    flags: Option<usize>,
) -> Scan
    decreases all.len() - next,
{
    if next + 1 >= all.len() {
        Scan { error: None, first, flags }
    } else {
        match s.text(all[next as int]) {
            None => Scan { error: Some(type_error_view("keywords must be strings"@)), first, flags },
            Some(key) => if key == name {
                if has_first {
                    Scan { error: Some(twice(func, name)), first, flags }
                } else {
                    scan(s, func, name, all, next + 2, has_first, has_flags, Some((next + 1) as usize), flags)
                }
            } else if key == "flags"@ {
                if has_flags {
                    Scan { error: Some(twice(func, "flags"@)), first, flags }
                } else {
                    scan(s, func, name, all, next + 2, has_first, has_flags, first, Some((next + 1) as usize))
                }
            } else {
                Scan {
                    error: Some(type_error_view("'"@ + key + "' is an invalid keyword argument for "@ + func + "()"@)),
                    first,
                    flags,
                }
            },
        }
    }
}

/// Walks over the keyword arguments of a function that takes `name` and `flags`.
fn scan_keywords<T: ResourceTracker>(
    func: &str,
    name: &str,
    all: &Vec<Value>,
    start: usize,
    has_first: bool,
    has_flags: bool,
    heap: &Heap<T>,
    interns: &Interns,
) -> (r: (Option<RunError>, Option<usize>, Option<usize>))
    requires
        legible(scene(heap@, *interns), all@),
        start <= all@.len(),
        name@ != "flags"@,
    ensures
        ({
            let out = scan(
                scene(heap@, *interns),
                func@,
                name@,
                all@,
                start as nat,
                has_first,
                has_flags,
                None,
                None,
            );
            &&& out.first == r.1
            &&& out.flags == r.2
            &&& r.0 is Some <==> out.error is Some
            &&& r.0 matches Some(e) ==> out.error == Some(e@)
        }),
        r.1 matches Some(i) ==> start < i < all@.len(),
        r.2 matches Some(i) ==> start < i < all@.len(),
        r.1 is Some && r.2 is Some ==> r.1 != r.2,
        has_first ==> r.1 is None,
        has_flags ==> r.2 is None,
{
    let ghost s = scene(heap@, *interns);
    let mut next: usize = start;
    let mut first: Option<usize> = None;
    let mut flags: Option<usize> = None;
    while all.len() - next >= 2
        invariant
            start <= next <= all@.len(),
            s == scene(heap@, *interns),
            legible(s, all@),
            scan(s, func@, name@, all@, start as nat, has_first, has_flags, None, None) == scan(
                s,
                func@,
                name@,
                all@,
                next as nat,
                has_first,
                has_flags,
                first,
                flags,
            ),
            first matches Some(i) ==> start < i < all@.len() && i < next,
            flags matches Some(i) ==> start < i < all@.len() && i < next,
            first is Some && flags is Some ==> first != flags,
            has_first ==> first is None,
            has_flags ==> flags is None,
        decreases all.len() - next,
    {
        proof {
            assert(s.has(all@[next as int]));
        }
        match all[next].as_text(heap, interns) {
            None => {
                return (Some(RunError::type_error("keywords must be strings")), first, flags);
            },
            Some(key) => {
                if same_text(key, name) {
                    if has_first {
                        return (Some(twice_error(func, name)), first, flags);
                    }
                    first = Some(next + 1);
                } else if same_text(key, "flags") {
                    if has_flags {
                        return (Some(twice_error(func, "flags")), first, flags);
                    }
                    flags = Some(next + 1);
                } else {
                    let mut m: String = join3("'", key, "' is an invalid keyword argument for ");
                    m.append(func);
                    m.append("()");
                    return (Some(RunError::type_error_owned(m)), first, flags);
                }
            },
        }
        next = next + 2;
    }
    (None, first, flags)
}

/// The first position that is there.
pub open spec fn or_else(a: Option<usize>, b: Option<usize>) -> Option<usize> {
    match a {
        Some(i) => Some(i),
        None => b,
    }
}

fn or_position(a: Option<usize>, b: Option<usize>) -> (r: Option<usize>)
    ensures
        r == or_else(a, b),
{
    match a {
        Some(i) => Some(i),
        None => b,
    }
}

/// What `re.sub` is asked to do; `all` holds `n` positional arguments and then each
/// keyword before its value.
pub open spec fn plan_sub<T: ResourceTracker>(s: Scene<T>, all: Seq<Value>, n: nat) -> Result<RePlanView, ErrorView> {
    if n < 1 {
        Err(missing("re.sub"@, "pattern"@))
    } else if n < 2 {
        Err(missing("re.sub"@, "repl"@))
    } else if n < 3 {
        Err(missing("re.sub"@, "string"@))
    } else {
        let count: Option<usize> = if n > 3 { Some(3) } else { None };
        let flags: Option<usize> = if n > 4 { Some(4) } else { None };
        if n > 5 {
            Err(type_error_view("re.sub() takes at most 5 positional arguments"@))
        } else {
            let kw = scan(s, "re.sub"@, "count"@, all, n, n > 3, n > 4, None, None);
            match kw.error {
                Some(e) => Err(e),
                None => {
                    let flags = or_else(flags, kw.flags);
                    match value_at(all, or_else(count, kw.first)) {
                        Some(Value::Int(k)) => if k >= 0 {
                            plan_replace(s, all, k as usize, value_at(all, flags))
                        } else {
                            // Negative count — return original string unchanged
                            match flags_of(s, value_at(all, flags)) {
                                Err(e) => Err(e),
                                Ok(_) => match expect_text(s, all[2]) {
                                    Err(e) => Err(e),
                                    Ok(text) => Ok(RePlanView::Text(text)),
                                },
                            }
                        },
                        Some(Value::Bool(b)) => plan_replace(
                            s,
                            all,
                            if b { 1 } else { 0 },
                            value_at(all, flags),
                        ),
                        Some(other) => Err(
                            type_error_view(
                                "'"@ + s.type_of(other).name()
                                    + "' object cannot be interpreted as an integer for 'count' argument"@,
                            ),
                        ),
                        None => plan_replace(s, all, 0, value_at(all, flags)),
                    }
                },
            }
        }
    }
}

/// What `re.sub` is asked to do once the count is known.
pub open spec fn plan_replace<T: ResourceTracker>(
    s: Scene<T>,
    all: Seq<Value>,
    count: usize,
    flags: Option<Value>,
) -> Result<RePlanView, ErrorView> {
    match flags_of(s, flags) {
        Err(e) => Err(e),
        Ok(flags) => match expect_text(s, all[0]) {
            Err(e) => Err(e),
            Ok(pattern) => match s.text(all[1]) {
                // callable replacement is not supported
                None => Err(type_error_view("callable replacement is not yet supported in re.sub()"@)),
                Some(repl) => match expect_text(s, all[2]) {
                    Err(e) => Err(e),
                    Ok(text) => Ok(
                        RePlanView::Regex(
                            RegexCallView {
                                function: ReFunctions::Sub,
                                pattern,
                                flags,
                                text,
                                repl,
                                limit: count,
                            },
                        ),
                    ),
                },
            },
        },
    }
}

/// What `re.split` is asked to do; `all` holds `n` positional arguments and then
/// each keyword before its value.
pub open spec fn plan_split<T: ResourceTracker>(s: Scene<T>, all: Seq<Value>, n: nat) -> Result<RePlanView, ErrorView> {
    if n < 1 {
        Err(missing("re.split"@, "pattern"@))
    } else if n < 2 {
        Err(missing("re.split"@, "string"@))
    } else {
        let maxsplit: Option<usize> = if n > 2 { Some(2) } else { None };
        let flags: Option<usize> = if n > 3 { Some(3) } else { None };
        if n > 4 {
            Err(type_error_view("re.split() takes at most 4 positional arguments"@))
        } else {
            let kw = scan(s, "re.split"@, "maxsplit"@, all, n, n > 2, n > 3, None, None);
            match kw.error {
                Some(e) => Err(e),
                None => {
                    let flags = or_else(flags, kw.flags);
                    match maxsplit_of(s, value_at(all, or_else(maxsplit, kw.first))) {
                        Err(e) => Err(e),
                        Ok(limit) => match flags_of(s, value_at(all, flags)) {
                            Err(e) => Err(e),
                            Ok(flags) => match expect_text(s, all[0]) {
                                Err(e) => Err(e),
                                Ok(pattern) => match expect_text(s, all[1]) {
                                    Err(e) => Err(e),
                                    Ok(text) => Ok(
                                        RePlanView::Regex(
                                            RegexCallView {
                                                function: ReFunctions::Split,
                                                pattern,
                                                flags,
                                                text,
                                                repl: Seq::empty(),
                                                limit,
                                            },
                                        ),
                                    ),
                                },
                            },
                        },
                    }
                },
            }
        }
    }
}

/// Does a plan have the contents `d`?
pub open spec fn decides(d: Result<RePlanView, ErrorView>, plan: Result<RePlan, RunError>) -> bool {
    match plan {
        Ok(p) => d == Ok::<RePlanView, ErrorView>(p@),
        Err(e) => d == Err::<RePlanView, ErrorView>(e@),
    }
}

/// Decides what `re.sub` is asked to do.
///
/// Supports both positional and keyword arguments for `count` and `flags`.
#[verifier::rlimit(30)]
pub fn decide_sub<T: ResourceTracker>(all: &Vec<Value>, n: usize, heap: &Heap<T>, interns: &Interns) -> (r: Result<
    RePlan,
    RunError,
>)
    requires
        legible(scene(heap@, *interns), all@),
        n <= all@.len(),
    ensures
        decides(plan_sub(scene(heap@, *interns), all@, n as nat), r),
{
    let ghost s = scene(heap@, *interns);
    proof {
        reveal_strlit("count");
        reveal_strlit("flags");
        assert("count"@[0] != "flags"@[0]);
    }
    if n < 1 {
        return Err(missing_error("re.sub", "pattern"));
    }
    if n < 2 {
        return Err(missing_error("re.sub", "repl"));
    }
    if n < 3 {
        return Err(missing_error("re.sub", "string"));
    }
    proof {
        assert(s.has(all@[0]) && s.has(all@[1]) && s.has(all@[2]));
    }
    // count and flags from remaining positional args
    let pos_count: Option<usize> = if n > 3 { Some(3) } else { None };
    let pos_flags: Option<usize> = if n > 4 { Some(4) } else { None };
    if n > 5 {
        return Err(RunError::type_error("re.sub() takes at most 5 positional arguments"));
    }
    // count and flags from kwargs (if not given positionally)
    let (error, kw_count, kw_flags): (Option<RunError>, Option<usize>, Option<usize>) = scan_keywords(
        "re.sub",
        "count",
        all,
        n,
        n > 3,
        n > 4,
        heap,
        interns,
    );
    if let Some(e) = error {
        return Err(e);
    }
    let count_at: Option<usize> = or_position(pos_count, kw_count);
    let flags_at: Option<usize> = or_position(pos_flags, kw_flags);
    let flags_val: Option<Value> = match flags_at {
        Some(i) => Some(all[i]),
        None => None,
    };
    let count: usize = match count_at {
        Some(i) => match all[i] {
            Value::Int(k) => {
                if k >= 0 {
                    k as usize
                } else {
                    // Negative count — return original string unchanged
                    match extract_flags(flags_val, heap, interns) {
                        Ok(_) => {},
                        Err(e) => {
                            return Err(e);
                        },
                    }
                    return match value_to_str(all[2], heap, interns) {
                        Ok(text) => Ok(RePlan::Text(text)),
                        Err(e) => Err(e),
                    };
                }
            },
            Value::Bool(b) => if b { 1 } else { 0 },
            other => {
                let m: String = join3(
                    "'",
                    other.py_type(heap, interns).as_str(),
                    "' object cannot be interpreted as an integer for 'count' argument",
                );
                return Err(RunError::type_error_owned(m));
            },
        },
        None => 0,
    };
    let flags: u16 = match extract_flags(flags_val, heap, interns) {
        Ok(flags) => flags,
        Err(e) => {
            return Err(e);
        },
    };
    let pattern: String = match value_to_str(all[0], heap, interns) {
        Ok(t) => t,
        Err(e) => {
            return Err(e);
        },
    };
    // Check that repl is a string — callable replacement is not supported
    let repl: String = match all[1].as_text(heap, interns) {
        Some(t) => t.to_owned(),
        None => {
            return Err(RunError::type_error("callable replacement is not yet supported in re.sub()"));
        },
    };
    let text: String = match value_to_str(all[2], heap, interns) {
        Ok(t) => t,
        Err(e) => {
            return Err(e);
        },
    };
    Ok(RePlan::Regex(RegexCall { function: ReFunctions::Sub, pattern, flags, text, repl, limit: count }))
}

/// Decides what `re.split` is asked to do.
///
/// Supports both positional and keyword arguments for `maxsplit` and `flags`.
#[verifier::rlimit(30)]
pub fn decide_split<T: ResourceTracker>(all: &Vec<Value>, n: usize, heap: &Heap<T>, interns: &Interns) -> (r: Result<
    RePlan,
    RunError,
>)
    requires
        legible(scene(heap@, *interns), all@),
        n <= all@.len(),
    ensures
        decides(plan_split(scene(heap@, *interns), all@, n as nat), r),
{
    let ghost s = scene(heap@, *interns);
    proof {
        reveal_strlit("maxsplit");
        reveal_strlit("flags");
        assert("maxsplit"@[0] != "flags"@[0]);
    }
    if n < 1 {
        return Err(missing_error("re.split", "pattern"));
    }
    if n < 2 {
        return Err(missing_error("re.split", "string"));
    }
    proof {
        assert(s.has(all@[0]) && s.has(all@[1]));
    }
    let pos_maxsplit: Option<usize> = if n > 2 { Some(2) } else { None };
    let pos_flags: Option<usize> = if n > 3 { Some(3) } else { None };
    if n > 4 {
        return Err(RunError::type_error("re.split() takes at most 4 positional arguments"));
    }
    let (error, kw_maxsplit, kw_flags): (Option<RunError>, Option<usize>, Option<usize>) = scan_keywords(
        "re.split",
        "maxsplit",
        all,
        n,
        n > 2,
        n > 3,
        heap,
        interns,
    );
    if let Some(e) = error {
        return Err(e);
    }
    let maxsplit_at: Option<usize> = or_position(pos_maxsplit, kw_maxsplit);
    let flags_at: Option<usize> = or_position(pos_flags, kw_flags);
    let maxsplit_val: Option<Value> = match maxsplit_at {
        Some(i) => Some(all[i]),
        None => None,
    };
    let flags_val: Option<Value> = match flags_at {
        Some(i) => Some(all[i]),
        None => None,
    };
    let limit: usize = match extract_maxsplit(maxsplit_val, heap, interns) {
        Ok(limit) => limit,
        Err(e) => {
            return Err(e);
        },
    };
    let flags: u16 = match extract_flags(flags_val, heap, interns) {
        Ok(flags) => flags,
        Err(e) => {
            return Err(e);
        },
    };
    let pattern: String = match value_to_str(all[0], heap, interns) {
        Ok(t) => t,
        Err(e) => {
            return Err(e);
        },
    };
    let text: String = match value_to_str(all[1], heap, interns) {
        Ok(t) => t,
        Err(e) => {
            return Err(e);
        },
    };
    let repl: String = String::new();
    proof {
        assert(repl@ =~= Seq::empty());
    }
    Ok(RePlan::Regex(RegexCall { function: ReFunctions::Split, pattern, flags, text, repl, limit }))
}

// ---------------------------------------------------------------------------
// Calls
// ---------------------------------------------------------------------------

/// What a call of a function of the module comes to.
pub open spec fn decision<T: ResourceTracker>(
    s: Scene<T>,
    f: ReFunctions,
    pos: Seq<Value>,
    kws: Seq<DictEntry>,
) -> Result<RePlanView, ErrorView> {
    match f {
        ReFunctions::Compile => if kws.len() > 0 || pos.len() == 0 || pos.len() > 2 {
            Err(arity_error(f.full_name(), 1, 2, pos.len(), kws.len()))
        } else {
            plan_compile(s, pos)
        },
        ReFunctions::Sub => plan_sub(s, arg_values(pos, kws), pos.len()),
        ReFunctions::Split => plan_split(s, arg_values(pos, kws), pos.len()),
        ReFunctions::Escape => if kws.len() > 0 || pos.len() != 1 {
            Err(arity_error(f.full_name(), 1, 1, pos.len(), kws.len()))
        } else {
            plan_escape(s, pos[0])
        },
        _ => if kws.len() > 0 {
            Err(ErrorView::NoKeywords { name: f.full_name() })
        } else {
            plan_search(s, f, pos)
        },
    }
}

/// What `re.escape` is asked to do.
pub open spec fn plan_escape<T: ResourceTracker>(s: Scene<T>, v: Value) -> Result<RePlanView, ErrorView> {
    match expect_text(s, v) {
        Err(e) => Err(e),
        Ok(text) => Ok(RePlanView::Text(escape_text(text))),
    }
}

/// May carrying out a decision turn the heap into `after` and give `r`?
///
/// A text is allocated before the arguments are given up.
pub open spec fn carries_out<T: ResourceTracker>(
    before: HeapModel<T>,
    after: HeapModel<T>,
    all: Seq<Value>,
    d: Result<RePlanView, ErrorView>,
    r: Result<AttrCallResult, RunError>,
) -> bool {
    match d {
        Err(e) => r matches Err(err) && err@ == e && before.gave_up(after, refs(all)),
        Ok(RePlanView::Regex(c)) => {
            &&& r matches Ok(AttrCallResult::Native(NativeCall::Regex(call))) && call@ == c
            &&& before.gave_up(after, refs(all))
        },
        Ok(RePlanView::Text(t)) => hands_out(before, after, all, t, r),
    }
}

/// May making a string value of `t` and then giving up the values in `all` turn the
/// heap into `after` and give `r`?
pub open spec fn hands_out<T: ResourceTracker>(
    before: HeapModel<T>,
    after: HeapModel<T>,
    all: Seq<Value>,
    t: Seq<char>,
    r: Result<AttrCallResult, RunError>,
) -> bool {
    exists|mid: HeapModel<T>| #[trigger] makes_text(before, mid, t, r) && mid.gave_up(after, refs(all))
}

/// May making a string value of `t` turn the heap into `after` and give `r`?
pub open spec fn makes_text<T: ResourceTracker>(
    before: HeapModel<T>,
    after: HeapModel<T>,
    t: Seq<char>,
    r: Result<AttrCallResult, RunError>,
) -> bool {
    exists|text: Str|
        (#[trigger] text.value)@ == t && match r {
            Ok(AttrCallResult::Value(Value::Ref(id))) => before.allocates(after, HeapData::Str(text), Ok(id)),
            Err(RunError::Resource(e)) => before.allocates(after, HeapData::Str(text), Err(e)),
            _ => false,
        }
}

/// Carries out a decision: makes the text, if there is one, and gives up the arguments.
fn carry_out<T: ResourceTracker>(
    plan: Result<RePlan, RunError>,
    all: Vec<Value>,
    heap: &mut Heap<T>,
) -> (r: Result<AttrCallResult, RunError>)
    requires
        old(heap)@.wf(),
        old(heap)@.entries.len() < usize::MAX,
        owns(old(heap)@.entries, all@),
    ensures
        forall|d: Result<RePlanView, ErrorView>| #[trigger]
            decides(d, plan) ==> carries_out(old(heap)@, final(heap)@, all@, d, r),
{
    match plan {
        Err(e) => {
            heap.discard_all(all.as_slice());
            Err(e)
        },
        Ok(RePlan::Regex(call)) => {
            heap.discard_all(all.as_slice());
            Ok(AttrCallResult::Native(NativeCall::Regex(call)))
        },
        Ok(RePlan::Text(text)) => {
            let value: Str = Str::new(text);
            let ghost made = value;
            let outcome: Result<HeapId, ResourceError> = heap.allocate(HeapData::Str(value));
            let ghost mid = heap@;
            proof {
                lemma_still_owns(old(heap)@, mid, HeapData::Str(made), outcome, all@);
            }
            heap.discard_all(all.as_slice());
            let r: Result<AttrCallResult, RunError> = match outcome {
                Ok(id) => Ok(AttrCallResult::Value(Value::Ref(id))),
                Err(e) => Err(RunError::Resource(e)),
            };
            proof {
                assert(makes_text(old(heap)@, mid, made.value@, r));
                assert(hands_out(old(heap)@, heap@, all@, made.value@, r));
            }
            r
        },
    }
}

/// Dispatches a call to a `re` module function.
///
/// Extracts arguments and asks for the matching operation. Where it fails, or the
/// result is a text, nothing is left to do.
pub fn call<T: ResourceTracker>(heap: &mut Heap<T>, function: ReFunctions, args: ArgValues, interns: &Interns) -> (r:
    Result<AttrCallResult, RunError>)
    requires
        old(heap)@.wf(),
        old(heap)@.entries.len() < usize::MAX,
        owns(old(heap)@.entries, args.values()),
        legible(scene(old(heap)@, *interns), args.values()),
    ensures
        carries_out(
            old(heap)@,
            final(heap)@,
            args.values(),
            decision(scene(old(heap)@, *interns), function, args.positional(), args.keywords()),
            r,
        ),
{
    match function {
        ReFunctions::Compile => call_compile(heap, args, interns),
        ReFunctions::Sub => call_sub(heap, args, interns),
        ReFunctions::Split => call_split(heap, args, interns),
        ReFunctions::Escape => call_escape(heap, args, interns),
        ReFunctions::Search | ReFunctions::Match | ReFunctions::Fullmatch | ReFunctions::Findall
            | ReFunctions::Finditer => call_search(heap, function, args, interns),
    }
}

/// `re.compile(pattern, flags=0)` — compile a regular expression pattern.
///
/// Accepts 1 or 2 positional arguments: `(pattern)` or `(pattern, flags)`.
/// The pattern must be a string, and flags must be a non-negative integer.
fn call_compile<T: ResourceTracker>(heap: &mut Heap<T>, args: ArgValues, interns: &Interns) -> (r: Result<
    AttrCallResult,
    RunError,
>)
    requires
        old(heap)@.wf(),
        old(heap)@.entries.len() < usize::MAX,
        owns(old(heap)@.entries, args.values()),
        legible(scene(old(heap)@, *interns), args.values()),
    ensures
        carries_out(
            old(heap)@,
            final(heap)@,
            args.values(),
            decision(scene(old(heap)@, *interns), ReFunctions::Compile, args.positional(), args.keywords()),
            r,
        ),
{
    let ghost s = scene(heap@, *interns);
    let ghost all = args.values();
    let ghost pos = args.positional();
    proof {
        lemma_values(args);
    }
    let (pattern_val, flags_val): (Value, Option<Value>) = match args.get_one_two_args("re.compile", heap) {
        Ok(pair) => pair,
        Err(e) => {
            return Err(e);
        },
    };
    proof {
        assert(all[0] == pattern_val);
        assert(s.has(all[0]));
        if let Some(f) = flags_val {
            assert(all[1] == f);
        }
    }
    let plan: Result<RePlan, RunError> = match value_to_str(pattern_val, heap, interns) {
        Err(e) => Err(e),
        Ok(pattern) => match extract_flags(flags_val, heap, interns) {
            Err(e) => Err(e),
            Ok(flags) => {
                let text: String = String::new();
                let repl: String = String::new();
                proof {
                    assert(text@ =~= Seq::empty());
                    assert(repl@ =~= Seq::empty());
                }
                Ok(
                    RePlan::Regex(
                        RegexCall { function: ReFunctions::Compile, pattern, flags, text, repl, limit: 0 },
                    ),
                )
            },
        },
    };
    let values: Vec<Value> = match flags_val {
        Some(f) => vec![pattern_val, f],
        None => vec![pattern_val],
    };
    proof {
        assert(values@ =~= all);
        assert(decides(plan_compile(s, pos), plan));
    }
    carry_out(plan, values, heap)
}

/// `re.search`, `re.match`, `re.fullmatch`, `re.findall` and `re.finditer`.
fn call_search<T: ResourceTracker>(heap: &mut Heap<T>, function: ReFunctions, args: ArgValues, interns: &Interns) -> (r:
    Result<AttrCallResult, RunError>)
    requires
        !(function is Compile || function is Sub || function is Split || function is Escape),
        old(heap)@.wf(),
        old(heap)@.entries.len() < usize::MAX,
        owns(old(heap)@.entries, args.values()),
        legible(scene(old(heap)@, *interns), args.values()),
    ensures
        carries_out(
            old(heap)@,
            final(heap)@,
            args.values(),
            decision(scene(old(heap)@, *interns), function, args.positional(), args.keywords()),
            r,
        ),
{
    let ghost s = scene(heap@, *interns);
    let ghost all = args.values();
    proof {
        lemma_values(args);
    }
    let pos: Vec<Value> = match args.into_pos_only(function.full_str(), heap) {
        Ok(pos) => pos,
        Err(e) => {
            return Err(e);
        },
    };
    proof {
        assert(pos@ =~= all);
    }
    let plan: Result<RePlan, RunError> = extract_pattern_string_flags(function, &pos, heap, interns);
    proof {
        assert(decides(plan_search(s, function, pos@), plan));
    }
    carry_out(plan, pos, heap)
}

/// `re.sub(pattern, repl, string, count=0, flags=0)` — substitute matches with a replacement.
///
/// When `count` is 0, all matches are replaced.
/// Supports both positional and keyword arguments for `count` and `flags`.
fn call_sub<T: ResourceTracker>(heap: &mut Heap<T>, args: ArgValues, interns: &Interns) -> (r: Result<
    AttrCallResult,
    RunError,
>)
    requires
        old(heap)@.wf(),
        old(heap)@.entries.len() < usize::MAX,
        owns(old(heap)@.entries, args.values()),
        legible(scene(old(heap)@, *interns), args.values()),
    ensures
        carries_out(
            old(heap)@,
            final(heap)@,
            args.values(),
            decision(scene(old(heap)@, *interns), ReFunctions::Sub, args.positional(), args.keywords()),
            r,
        ),
{
    let (pos, kws): (Vec<Value>, Vec<DictEntry>) = args.into_parts();
    let n: usize = pos.len();
    let mut all: Vec<Value> = pos;
    push_entries(&mut all, &kws);
    let plan: Result<RePlan, RunError> = decide_sub(&all, n, heap, interns);
    carry_out(plan, all, heap)
}

/// `re.split(pattern, string, maxsplit=0, flags=0)` — split string by pattern occurrences.
///
/// If `maxsplit` is non-zero, at most `maxsplit` splits occur.
/// Supports both positional and keyword arguments for `maxsplit` and `flags`.
fn call_split<T: ResourceTracker>(heap: &mut Heap<T>, args: ArgValues, interns: &Interns) -> (r: Result<
    AttrCallResult,
    RunError,
>)
    requires
        old(heap)@.wf(),
        old(heap)@.entries.len() < usize::MAX,
        owns(old(heap)@.entries, args.values()),
        legible(scene(old(heap)@, *interns), args.values()),
    ensures
        carries_out(
            old(heap)@,
            final(heap)@,
            args.values(),
            decision(scene(old(heap)@, *interns), ReFunctions::Split, args.positional(), args.keywords()),
            r,
        ),
{
    let (pos, kws): (Vec<Value>, Vec<DictEntry>) = args.into_parts();
    let n: usize = pos.len();
    let mut all: Vec<Value> = pos;
    push_entries(&mut all, &kws);
    let plan: Result<RePlan, RunError> = decide_split(&all, n, heap, interns);
    carry_out(plan, all, heap)
}

/// `re.escape(pattern)` — escape special regex characters in a string.
///
/// Returns a string with all regex metacharacters and whitespace prefixed with
/// a backslash. Only characters that have special meaning in regex patterns are
/// escaped, matching CPython 3.7+ behavior.
fn call_escape<T: ResourceTracker>(heap: &mut Heap<T>, args: ArgValues, interns: &Interns) -> (r: Result<
    AttrCallResult,
    RunError,
>)
    requires
        old(heap)@.wf(),
        old(heap)@.entries.len() < usize::MAX,
        owns(old(heap)@.entries, args.values()),
        legible(scene(old(heap)@, *interns), args.values()),
    ensures
        carries_out(
            old(heap)@,
            final(heap)@,
            args.values(),
            decision(scene(old(heap)@, *interns), ReFunctions::Escape, args.positional(), args.keywords()),
            r,
        ),
{
    let ghost s = scene(heap@, *interns);
    let ghost all = args.values();
    let ghost pos = args.positional();
    proof {
        lemma_values(args);
    }
    let arg: Value = match args.get_one_arg("re.escape", heap) {
        Ok(v) => v,
        Err(e) => {
            return Err(e);
        },
    };
    proof {
        assert(all[0] == arg);
        assert(s.has(all[0]));
    }
    let plan: Result<RePlan, RunError> = match value_to_str(arg, heap, interns) {
        Ok(text) => Ok(RePlan::Text(escape_pattern(text.as_str()))),
        Err(e) => Err(e),
    };
    let values: Vec<Value> = vec![arg];
    proof {
        assert(values@ =~= all);
        assert(decides(plan_escape(s, pos[0]), plan));
    }
    carry_out(plan, values, heap)
}

/// Without keywords the arguments are the positional ones.
proof fn lemma_values(args: ArgValues)
    ensures
        args.keywords().len() == 0 ==> args.values() == args.positional(),
{
    if args.keywords().len() == 0 {
        assert(args.values() =~= args.positional());
    }
}

/// An allocation takes no reference away from what is held from outside, where the
/// payload holds none.
pub proof fn lemma_still_owns<T: ResourceTracker>(
    before: HeapModel<T>,
    after: HeapModel<T>,
    data: HeapData,
    r: Result<HeapId, ResourceError>,
    vs: Seq<Value>,
)
    requires
        before.wf(),
        before.entries.len() < usize::MAX,
        before.allocates(after, data, r),
        child_ids(data).len() == 0,
        owns(before.entries, vs),
    ensures
        owns(after.entries, vs),
{
    if r is Ok {
        allocation_balances(before, data, after.tracker);
        assert forall|x: HeapId| #[trigger] outside(after.entries, x) >= tally(refs(vs), x) + kept(x) by {
            assert(outside(before.entries, x) >= tally(refs(vs), x) + kept(x));
        }
    }
}

/// The arguments are given up, and what is allocated is handed out.
pub proof fn lemma_regex_balance<T: ResourceTracker>(
    before: HeapModel<T>,
    after: HeapModel<T>,
    all: Seq<Value>,
    d: Result<RePlanView, ErrorView>,
    r: Result<AttrCallResult, RunError>,
)
    requires
        before.wf(),
        before.entries.len() < usize::MAX,
        carries_out(before, after, all, d, r),
    ensures
        after.wf(),
        sound(after.entries),
        spares_others(before.entries, after.entries, all),
        r matches Ok(result) ==> forall|x: HeapId|
            #[trigger] outside(after.entries, x) == outside(before.entries, x) - holds(all, x) + holds(
                result.values(),
                x,
            ),
        r is Err ==> gives_back(before.entries, after.entries, all),
{
    match d {
        Ok(RePlanView::Text(t)) => {
            assert(hands_out(before, after, all, t, r));
            let mid = choose|mid: HeapModel<T>| #[trigger]
                makes_text(before, mid, t, r) && mid.gave_up(after, refs(all));
            let text = choose|text: Str|
                (#[trigger] text.value)@ == t && match r {
                    Ok(AttrCallResult::Value(Value::Ref(id))) => before.allocates(mid, HeapData::Str(text), Ok(id)),
                    Err(RunError::Resource(e)) => before.allocates(mid, HeapData::Str(text), Err(e)),
                    _ => false,
                };
            if let Ok(AttrCallResult::Value(v)) = r {
                allocation_balances(before, HeapData::Str(text), mid.tracker);
                assert forall|x: HeapId| #[trigger]
                    outside(after.entries, x) == outside(before.entries, x) - holds(all, x) + holds(seq![v], x) by {
                    lemma_holds_one(v, x);
                    assert(outside(after.entries, x) == outside(mid.entries, x) - tally(refs(all), x));
                }
            }
            if r is Err {
                assert forall|x: HeapId| #[trigger]
                    outside(after.entries, x) == outside(before.entries, x) - holds(all, x) by {
                    assert(outside(after.entries, x) == outside(mid.entries, x) - tally(refs(all), x));
                }
            }
        },
        Ok(RePlanView::Regex(_)) => {
            assert forall|x: HeapId| #[trigger]
                outside(after.entries, x) == outside(before.entries, x) - holds(all, x) + holds(Seq::empty(), x) by {
                assert(outside(after.entries, x) == outside(before.entries, x) - tally(refs(all), x));
            }
        },
        Err(_) => {
            assert forall|x: HeapId| #[trigger] outside(after.entries, x) == outside(before.entries, x) - holds(all, x) by {
                assert(outside(after.entries, x) == outside(before.entries, x) - tally(refs(all), x));
            }
        },
    }
}

// ---------------------------------------------------------------------------
// The module
// ---------------------------------------------------------------------------

/// The attributes of the module: functions, flag constants, exception types and types.
pub open spec fn attributes() -> Seq<Attribute> {
    seq![
        Attribute {
            name: StaticStrings::Compile,
            value: Value::ModuleFunction(ModuleFunctions::Re(ReFunctions::Compile)),
        },
        Attribute {
            name: StaticStrings::Search,
            value: Value::ModuleFunction(ModuleFunctions::Re(ReFunctions::Search)),
        },
        Attribute { name: StaticStrings::Match, value: Value::ModuleFunction(ModuleFunctions::Re(ReFunctions::Match)) },
        Attribute {
            name: StaticStrings::Fullmatch,
            value: Value::ModuleFunction(ModuleFunctions::Re(ReFunctions::Fullmatch)),
        },
        Attribute {
            name: StaticStrings::Findall,
            value: Value::ModuleFunction(ModuleFunctions::Re(ReFunctions::Findall)),
        },
        Attribute { name: StaticStrings::Sub, value: Value::ModuleFunction(ModuleFunctions::Re(ReFunctions::Sub)) },
        Attribute { name: StaticStrings::Split, value: Value::ModuleFunction(ModuleFunctions::Re(ReFunctions::Split)) },
        Attribute {
            name: StaticStrings::Finditer,
            value: Value::ModuleFunction(ModuleFunctions::Re(ReFunctions::Finditer)),
        },
        Attribute {
            name: StaticStrings::Escape,
            value: Value::ModuleFunction(ModuleFunctions::Re(ReFunctions::Escape)),
        },
        Attribute { name: StaticStrings::NoFlag, value: Value::Int(NOFLAG as i64) },
        Attribute { name: StaticStrings::Ignorecase, value: Value::Int(IGNORECASE as i64) },
        Attribute { name: StaticStrings::I, value: Value::Int(IGNORECASE as i64) },
        Attribute { name: StaticStrings::MultilineFlag, value: Value::Int(MULTILINE as i64) },
        Attribute { name: StaticStrings::M, value: Value::Int(MULTILINE as i64) },
        Attribute { name: StaticStrings::DotallFlag, value: Value::Int(DOTALL as i64) },
        Attribute { name: StaticStrings::S, value: Value::Int(DOTALL as i64) },
        Attribute { name: StaticStrings::AsciiFlag, value: Value::Int(ASCII as i64) },
        Attribute { name: StaticStrings::A, value: Value::Int(ASCII as i64) },
        Attribute {
            name: StaticStrings::PatternError,
            value: Value::Builtin(Builtins::ExcType(ExcType::RePatternError)),
        },
        // `re.error` is the historical alias for `re.PatternError` (still widely used)
        Attribute { name: StaticStrings::Error, value: Value::Builtin(Builtins::ExcType(ExcType::RePatternError)) },
        Attribute { name: StaticStrings::PatternClass, value: Value::Builtin(Builtins::Type(Type::RePattern)) },
        Attribute { name: StaticStrings::MatchClass, value: Value::Builtin(Builtins::Type(Type::ReMatch)) },
    ]
}

/// Creates the `re` module and allocates it on the heap.
///
/// The module provides regex functions (`compile`, `search`, `match`, `fullmatch`,
/// `findall`, `sub`) and flag constants (`IGNORECASE`, `MULTILINE`, `DOTALL`).
///
/// # Returns
/// A `HeapId` pointing to the newly allocated module.
pub fn create_module<T: ResourceTracker>(heap: &mut Heap<T>, interns: &Interns) -> (r: Result<HeapId, ResourceError>)
    requires
        old(heap)@.wf(),
        sound(old(heap)@.entries),
        old(heap)@.entries.len() < usize::MAX,
    ensures
        final(heap)@.wf(),
        makes_module(old(heap)@, final(heap)@, StaticStrings::Re, attributes(), r),
{
    let list: Vec<Attribute> = vec![
        Attribute {
            name: StaticStrings::Compile,
            value: Value::ModuleFunction(ModuleFunctions::Re(ReFunctions::Compile)),
        },
        Attribute {
            name: StaticStrings::Search,
            value: Value::ModuleFunction(ModuleFunctions::Re(ReFunctions::Search)),
        },
        Attribute { name: StaticStrings::Match, value: Value::ModuleFunction(ModuleFunctions::Re(ReFunctions::Match)) },
        Attribute {
            name: StaticStrings::Fullmatch,
            value: Value::ModuleFunction(ModuleFunctions::Re(ReFunctions::Fullmatch)),
        },
        Attribute {
            name: StaticStrings::Findall,
            value: Value::ModuleFunction(ModuleFunctions::Re(ReFunctions::Findall)),
        },
        Attribute { name: StaticStrings::Sub, value: Value::ModuleFunction(ModuleFunctions::Re(ReFunctions::Sub)) },
        Attribute { name: StaticStrings::Split, value: Value::ModuleFunction(ModuleFunctions::Re(ReFunctions::Split)) },
        Attribute {
            name: StaticStrings::Finditer,
            value: Value::ModuleFunction(ModuleFunctions::Re(ReFunctions::Finditer)),
        },
        Attribute {
            name: StaticStrings::Escape,
            value: Value::ModuleFunction(ModuleFunctions::Re(ReFunctions::Escape)),
        },
        Attribute { name: StaticStrings::NoFlag, value: Value::Int(NOFLAG as i64) },
        Attribute { name: StaticStrings::Ignorecase, value: Value::Int(IGNORECASE as i64) },
        Attribute { name: StaticStrings::I, value: Value::Int(IGNORECASE as i64) },
        Attribute { name: StaticStrings::MultilineFlag, value: Value::Int(MULTILINE as i64) },
        Attribute { name: StaticStrings::M, value: Value::Int(MULTILINE as i64) },
        Attribute { name: StaticStrings::DotallFlag, value: Value::Int(DOTALL as i64) },
        Attribute { name: StaticStrings::S, value: Value::Int(DOTALL as i64) },
        Attribute { name: StaticStrings::AsciiFlag, value: Value::Int(ASCII as i64) },
        Attribute { name: StaticStrings::A, value: Value::Int(ASCII as i64) },
        Attribute {
            name: StaticStrings::PatternError,
            value: Value::Builtin(Builtins::ExcType(ExcType::RePatternError)),
        },
        // `re.error` is the historical alias for `re.PatternError` (still widely used)
        Attribute { name: StaticStrings::Error, value: Value::Builtin(Builtins::ExcType(ExcType::RePatternError)) },
        Attribute { name: StaticStrings::PatternClass, value: Value::Builtin(Builtins::Type(Type::RePattern)) },
        Attribute { name: StaticStrings::MatchClass, value: Value::Builtin(Builtins::Type(Type::ReMatch)) },
    ];
    proof {
        assert(list@ =~= attributes());
        assert(distinct_names(list@));
    }
    build_module(StaticStrings::Re, &list, heap, interns)
}

} // verus!
