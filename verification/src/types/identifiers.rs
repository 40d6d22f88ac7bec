//! Python identifiers and keywords.

use crate::text::same_text;
use vstd::prelude::*;

verus! {

/// Does a character have Unicode's `Alphabetic` property?
pub uninterp spec fn alphabetic(c: char) -> bool;

/// `char::is_alphabetic` of the standard library: decides by the character alone
/// whether it has the `Alphabetic` property.
pub assume_specification[ char::is_alphabetic ](c: char) -> (r: bool)
    ensures
        r == alphabetic(c),
;

/// Does a character have one of Unicode's general categories for numbers?
pub uninterp spec fn numeric(c: char) -> bool;

/// `char::is_numeric` of the standard library: decides by the character alone whether
/// it is a number.
pub assume_specification[ char::is_numeric ](c: char) -> (r: bool)
    ensures
        r == numeric(c),
;

/// Can an identifier begin with the character?
pub open spec fn starts_identifier(c: char) -> bool {
    ||| c == '_'
    ||| 'a' <= c <= 'z'
    ||| 'A' <= c <= 'Z'
    ||| c as u32 >= 128 && alphabetic(c)
}

/// Can the character stand inside an identifier?
pub open spec fn continues_identifier(c: char) -> bool {
    ||| starts_identifier(c)
    ||| '0' <= c <= '9'
    ||| c as u32 >= 128 && numeric(c)
}

/// Is a text an identifier, keyword or not?
pub open spec fn is_identifier(t: Seq<char>) -> bool {
    &&& t.len() > 0
    &&& starts_identifier(t[0])
    &&& forall|i: int| 0 < i < t.len() ==> continues_identifier(#[trigger] t[i])
}

fn begins(c: char) -> (r: bool)
    ensures
        r == starts_identifier(c),
{
    c == '_' || ('a' <= c && c <= 'z') || ('A' <= c && c <= 'Z') || (c as u32 >= 128 && c.is_alphabetic())
}

fn continues(c: char) -> (r: bool)
    ensures
        r == continues_identifier(c),
{
    begins(c) || ('0' <= c && c <= '9') || (c as u32 >= 128 && c.is_numeric())
}

/// Returns whether a text is a Python identifier.
pub fn is_python_identifier(t: &str) -> (r: bool)
    ensures
        r == is_identifier(t@),
{
    let n: usize = t.unicode_len();
    if n == 0 || !begins(t.get_char(0)) {
        return false;
    }
    let mut i: usize = 1;
    while i < n
        invariant
            1 <= i <= n,
            n == t@.len(),
            starts_identifier(t@[0]),
            forall|k: int| 0 < k < i ==> continues_identifier(#[trigger] t@[k]),
        decreases n - i,
    {
        if !continues(t.get_char(i)) {
            return false;
        }
        i = i + 1;
    }
    true
}

/// The words that cannot be used as names.
pub open spec fn keywords() -> Seq<Seq<char>> {
    seq![
        "False"@, "None"@, "True"@, "and"@, "as"@, "assert"@, "async"@, "await"@, "break"@, "class"@, "continue"@,
        "def"@, "del"@, "elif"@, "else"@, "except"@, "finally"@, "for"@, "from"@, "global"@, "if"@, "import"@, "in"@,
        "is"@, "lambda"@, "nonlocal"@, "not"@, "or"@, "pass"@, "raise"@, "return"@, "try"@, "while"@, "with"@,
        "yield"@,
    ]
}

/// Returns whether a text is a Python keyword.
pub fn is_python_keyword(t: &str) -> (r: bool)
    ensures
        r == keywords().contains(t@),
{
    let list: Vec<&str> = vec![
        "False", "None", "True", "and", "as", "assert", "async", "await", "break", "class", "continue", "def", "del",
        "elif", "else", "except", "finally", "for", "from", "global", "if", "import", "in", "is", "lambda", "nonlocal",
        "not", "or", "pass", "raise", "return", "try", "while", "with", "yield",
    ];
    proof {
        assert(list@.len() == keywords().len());
        assert(forall|k: int| 0 <= k < list@.len() ==> (#[trigger] list@[k])@ == keywords()[k]);
    }
    let mut i: usize = 0;
    while i < list.len()
        invariant
            i <= list@.len(),
            list@.len() == keywords().len(),
            forall|k: int| 0 <= k < list@.len() ==> (#[trigger] list@[k])@ == keywords()[k],
            forall|k: int| 0 <= k < i ==> #[trigger] keywords()[k] != t@,
        decreases list.len() - i,
    {
        if same_text(list[i], t) {
            proof {
                assert(keywords()[i as int] == t@);
            }
            return true;
        }
        i = i + 1;
    }
    false
}

} // verus!
