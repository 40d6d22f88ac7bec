//! Names of namedtuple types and fields.

use crate::exceptions::{ErrorView, RunError};
use crate::text::{digit_char, join2, numeral, same_text, texts, write_numeral};
use crate::types::identifiers::{is_identifier, is_python_identifier, is_python_keyword, keywords};
use vstd::prelude::*;

verus! {

// ---------------------------------------------------------------------------
// Splitting
// ---------------------------------------------------------------------------

/// Does the character separate field names?
pub open spec fn separates(c: char) -> bool {
    c == ',' || c == ' ' || c == '\t' || c == '\n' || c == '\x0c' || c == '\r'
}

fn is_separator(c: char) -> (r: bool)
    ensures
        r == separates(c),
{
    matches!(c, ',' | ' ' | '\t' | '\n' | '\x0c' | '\r')
}

/// Does a text end within a word?
pub open spec fn in_word(t: Seq<char>) -> bool {
    t.len() > 0 && !separates(t.last())
}

/// The longest runs of characters that are no separators, in order.
pub open spec fn words(t: Seq<char>) -> Seq<Seq<char>>
    decreases t.len(),
{
    if t.len() == 0 {
        Seq::empty()
    } else {
        let head = t.drop_last();
        let done = words(head);
        if separates(t.last()) {
            done
        } else if in_word(head) {
            done.update(done.len() - 1, done.last().push(t.last()))
        } else {
            done.push(seq![t.last()])
        }
    }
}

proof fn lemma_in_word(t: Seq<char>)
    ensures
        in_word(t) ==> words(t).len() > 0,
    decreases t.len(),
{
    if t.len() > 0 {
        lemma_in_word(t.drop_last());
    }
}

/// Is the text not empty, and without separators?
pub open spec fn is_word(w: Seq<char>) -> bool {
    w.len() > 0 && forall|k: int| 0 <= k < w.len() ==> !separates(#[trigger] w[k])
}

/// Words are not empty, and no separator stands in one.
pub proof fn words_hold_no_separators(t: Seq<char>)
    ensures
        forall|i: int| 0 <= i < words(t).len() ==> is_word(#[trigger] words(t)[i]),
    decreases t.len(),
{
    if t.len() > 0 {
        let done = words(t.drop_last());
        words_hold_no_separators(t.drop_last());
        lemma_in_word(t.drop_last());
        assert forall|i: int| 0 <= i < words(t).len() implies is_word(#[trigger] words(t)[i]) by {
            if i < done.len() {
                assert(is_word(done[i]));
            }
        }
    }
}

proof fn lemma_texts_update(v: Seq<String>, i: int, s: String)
    requires
        0 <= i < v.len(),
    ensures
        texts(v.update(i, s)) == texts(v).update(i, s@),
{
    assert(texts(v.update(i, s)) =~= texts(v).update(i, s@));
}

proof fn lemma_texts_push(v: Seq<String>, s: String)
    ensures
        texts(v.push(s)) == texts(v).push(s@),
{
    assert(texts(v.push(s)) =~= texts(v).push(s@));
}

/// Splits a field-name string on commas and ASCII whitespace like CPython.
pub fn split_field_names(field_names: &str) -> (r: Vec<String>)
    ensures
        texts(r@) == words(field_names@),
{
    let n: usize = field_names.unicode_len();
    let mut out: Vec<String> = Vec::new();
    let mut inside: bool = false;
    let mut i: usize = 0;
    proof {
        assert(field_names@.take(0) =~= Seq::empty());
        assert(texts(out@) =~= words(field_names@.take(0)));
    }
    while i < n
        invariant
            i <= n,
            n == field_names@.len(),
            texts(out@) == words(field_names@.take(i as int)),
            inside == in_word(field_names@.take(i as int)),
        decreases n - i,
    {
        let c: char = field_names.get_char(i);
        proof {
            let head = field_names@.take(i as int);
            assert(field_names@.take(i + 1).drop_last() =~= head);
            lemma_in_word(head);
        }
        if is_separator(c) {
            inside = false;
        } else {
            if inside {
                let last: usize = out.len() - 1;
                let ghost before = out@;
                let mut word: String = out[last].as_str().to_owned();
                word.push(c);
                let ghost longer = word;
                out.set(last, word);
                proof {
                    lemma_texts_update(before, last as int, longer);
                }
            } else {
                let ghost before = out@;
                let mut word: String = String::new();
                word.push(c);
                let ghost first = word;
                proof {
                    assert(first@ =~= seq![c]);
                }
                out.push(word);
                proof {
                    lemma_texts_push(before, first);
                }
            }
            inside = true;
        }
        i = i + 1;
    }
    proof {
        assert(field_names@.take(n as int) =~= field_names@);
    }
    out
}

// ---------------------------------------------------------------------------
// Validation
// ---------------------------------------------------------------------------

/// What is wrong with a name as the name of a type.
pub open spec fn name_problem(name: Seq<char>) -> Option<ErrorView> {
    if !is_identifier(name) {
        Some(ErrorView::InvalidIdentifier(name))
    } else if keywords().contains(name) {
        Some(ErrorView::KeywordName(name))
    } else {
        None
    }
}

/// What is wrong with a name as that of the field after those in `done`.
pub open spec fn field_problem(done: Seq<Seq<char>>, name: Seq<char>) -> Option<ErrorView> {
    match name_problem(name) {
        Some(e) => Some(e),
        None => if name[0] == '_' {
            Some(ErrorView::UnderscoreField(name))
        } else if done.contains(name) {
            Some(ErrorView::DuplicateField(name))
        } else {
            None
        },
    }
}

/// The name that a field gets in place of an improper one.
pub open spec fn replacement(index: nat) -> Seq<char> {
    "_"@ + numeral(index, 10)
}

/// Field names with improper ones replaced, or else the first problem.
pub open spec fn checked_names(names: Seq<Seq<char>>, rename: bool) -> Result<Seq<Seq<char>>, ErrorView>
    decreases names.len(),
{
    if names.len() == 0 {
        Ok(Seq::empty())
    } else {
        match checked_names(names.drop_last(), rename) {
            Err(e) => Err(e),
            Ok(done) => match field_problem(done, names.last()) {
                None => Ok(done.push(names.last())),
                Some(e) => if rename {
                    Ok(done.push(replacement((names.len() - 1) as nat)))
                } else {
                    Err(e)
                },
            },
        }
    }
}

/// Validates the typename against Python identifier rules.
pub fn validate_typename(typename: &str) -> (r: Result<(), RunError>)
    ensures
        match r {
            Ok(_) => name_problem(typename@) is None,
            Err(e) => name_problem(typename@) == Some(e@),
        },
{
    if !is_python_identifier(typename) {
        return Err(RunError::InvalidIdentifier(typename.to_owned()));
    }
    if is_python_keyword(typename) {
        return Err(RunError::KeywordName(typename.to_owned()));
    }
    Ok(())
}

/// Returns whether one of the names is the given one.
fn any_is(names: &Vec<String>, name: &str) -> (r: bool)
    ensures
        r == texts(names@).contains(name@),
{
    let mut i: usize = 0;
    while i < names.len()
        invariant
            i <= names@.len(),
            forall|k: int| 0 <= k < i ==> #[trigger] texts(names@)[k] != name@,
        decreases names.len() - i,
    {
        if same_text(names[i].as_str(), name) {
            proof {
                assert(texts(names@)[i as int] == name@);
            }
            return true;
        }
        i = i + 1;
    }
    false
}

/// Returns what is wrong with a field name.
fn find_problem(done: &Vec<String>, name: &str) -> (r: Option<RunError>)
    ensures
        match r {
            Some(e) => field_problem(texts(done@), name@) == Some(e@),
            None => field_problem(texts(done@), name@) is None,
        },
{
    match validate_typename(name) {
        Ok(_) => {},
        Err(e) => {
            return Some(e);
        },
    }
    if name.get_char(0) == '_' {
        return Some(RunError::UnderscoreField(name.to_owned()));
    }
    if any_is(done, name) {
        return Some(RunError::DuplicateField(name.to_owned()));
    }
    None
}

/// Validates and possibly renames field names.
pub fn validate_field_names(field_names: &Vec<String>, rename: bool) -> (r: Result<Vec<String>, RunError>)
    ensures
        match r {
            Ok(names) => checked_names(texts(field_names@), rename) == Ok::<Seq<Seq<char>>, ErrorView>(texts(names@)),
            Err(e) => checked_names(texts(field_names@), rename) == Err::<Seq<Seq<char>>, ErrorView>(e@),
        },
{
    let ghost all = texts(field_names@);
    let mut validated: Vec<String> = Vec::with_capacity(field_names.len());
    let mut index: usize = 0;
    proof {
        assert(all.take(0) =~= Seq::empty());
        assert(texts(validated@) =~= Seq::empty());
    }
    while index < field_names.len()
        invariant
            index <= field_names@.len(),
            all == texts(field_names@),
            validated@.len() == index,
            checked_names(all.take(index as int), rename) == Ok::<Seq<Seq<char>>, ErrorView>(texts(validated@)),
        decreases field_names.len() - index,
    {
        let name: &str = field_names[index].as_str();
        let ghost before = validated@;
        let ghost longer = all.take(index + 1);
        proof {
            assert(longer.drop_last() =~= all.take(index as int));
            assert(longer.last() == name@);
        }
        match find_problem(&validated, name) {
            None => {
                let own: String = name.to_owned();
                let ghost added = own;
                validated.push(own);
                proof {
                    lemma_texts_push(before, added);
                }
            },
            Some(e) => {
                if rename {
                    let own: String = join2("_", write_numeral(index as u64, 10).as_str());
                    let ghost added = own;
                    validated.push(own);
                    proof {
                        lemma_texts_push(before, added);
                    }
                } else {
                    proof {
                        lemma_failure_stays(all, rename, index + 1);
                    }
                    return Err(e);
                }
            },
        }
        proof {
            assert(checked_names(longer, rename) == Ok::<Seq<Seq<char>>, ErrorView>(texts(validated@)));
        }
        index = index + 1;
    }
    proof {
        assert(all.take(all.len() as int) =~= all);
    }
    Ok(validated)
}

proof fn lemma_failure_stays(names: Seq<Seq<char>>, rename: bool, k: int)
    requires
        0 <= k <= names.len(),
        checked_names(names.take(k), rename) is Err,
    ensures
        checked_names(names, rename) == checked_names(names.take(k), rename),
    decreases names.len() - k,
{
    if k == names.len() {
        assert(names.take(k) =~= names);
    } else {
        let longer = names.take(k + 1);
        assert(longer.drop_last() =~= names.take(k));
        assert(checked_names(longer, rename) == checked_names(names.take(k), rename));
        lemma_failure_stays(names, rename, k + 1);
    }
}

// ---------------------------------------------------------------------------
// Laws
// ---------------------------------------------------------------------------

proof fn lemma_digits(a: nat, b: nat)
    requires
        a < 10,
        b < 10,
        digit_char(a) == digit_char(b),
    ensures
        a == b,
{
    vstd::utf8::char_u32_cast(digit_char(a), (48 + a) as u32);
    vstd::utf8::char_u32_cast(digit_char(b), (48 + b) as u32);
}

proof fn lemma_numeral_len(n: nat)
    ensures
        numeral(n, 10).len() > 0,
        numeral(n, 10).last() == digit_char(n % 10),
        n >= 10 ==> numeral(n, 10).drop_last() == numeral(n / 10, 10),
        n >= 10 ==> numeral(n, 10).len() > 1,
        n < 10 ==> numeral(n, 10).len() == 1,
    decreases n,
{
    if n >= 10 {
        lemma_numeral_len(n / 10);
        assert(numeral(n, 10).drop_last() =~= numeral(n / 10, 10));
    }
}

/// Different numbers are written differently.
pub proof fn numerals_are_distinct(a: nat, b: nat)
    requires
        numeral(a, 10) == numeral(b, 10),
    ensures
        a == b,
    decreases a,
{
    lemma_numeral_len(a);
    lemma_numeral_len(b);
    lemma_digits(a % 10, b % 10);
    if a >= 10 {
        numerals_are_distinct(a / 10, b / 10);
    }
}

/// How a name in a list of validated names came about.
proof fn lemma_origin(names: Seq<Seq<char>>, rename: bool, i: int)
    requires
        checked_names(names, rename) is Ok,
        0 <= i < names.len(),
    ensures
        checked_names(names, rename)->Ok_0.len() == names.len(),
        ({
            let name = checked_names(names, rename)->Ok_0[i];
            ||| name == replacement(i as nat)
            ||| name == names[i] && name.len() > 0 && name[0] != '_' && forall|k: int|
                0 <= k < i ==> name != #[trigger] checked_names(names, rename)->Ok_0[k]
        }),
    decreases names.len(),
{
    lemma_checked_len(names, rename);
    let head = names.drop_last();
    lemma_checked_len(head, rename);
    let done = checked_names(head, rename)->Ok_0;
    if i < names.len() - 1 {
        lemma_origin(head, rename, i);
        assert(checked_names(names, rename)->Ok_0[i] == done[i]);
        assert forall|k: int| 0 <= k < i implies #[trigger] checked_names(names, rename)->Ok_0[k] == done[k] by {
        }
    } else {
        if field_problem(done, names.last()) is None {
            assert forall|k: int| 0 <= k < i implies names[i] != #[trigger] checked_names(names, rename)->Ok_0[k] by {
                assert(checked_names(names, rename)->Ok_0[k] == done[k]);
                assert(done.contains(done[k]));
            }
        }
    }
}

proof fn lemma_checked_len(names: Seq<Seq<char>>, rename: bool)
    ensures
        checked_names(names, rename) matches Ok(r) ==> r.len() == names.len(),
    decreases names.len(),
{
    if names.len() > 0 {
        lemma_checked_len(names.drop_last(), rename);
    }
}

/// Validated field names differ from each other, renamed or not.
pub proof fn field_names_are_distinct(names: Seq<Seq<char>>, rename: bool)
    requires
        checked_names(names, rename) is Ok,
    ensures
        checked_names(names, rename)->Ok_0.len() == names.len(),
        checked_names(names, rename)->Ok_0.no_duplicates(),
{
    let r = checked_names(names, rename)->Ok_0;
    lemma_checked_len(names, rename);
    assert forall|i: int, j: int| 0 <= i < j < r.len() implies r[i] != r[j] by {
        lemma_origin(names, rename, i);
        lemma_origin(names, rename, j);
        reveal_strlit("_");
        lemma_numeral_len(i as nat);
        lemma_numeral_len(j as nat);
        assert(replacement(i as nat)[0] == '_');
        assert(replacement(j as nat)[0] == '_');
        if r[i] == replacement(i as nat) && r[j] == replacement(j as nat) && r[i] == r[j] {
            assert(numeral(i as nat, 10) =~= replacement(i as nat).skip(1));
            assert(numeral(j as nat, 10) =~= replacement(j as nat).skip(1));
            numerals_are_distinct(i as nat, j as nat);
        }
    }
}

/// Without renaming, accepted names are the given ones, each a proper identifier.
pub proof fn accepted_names_are_kept(names: Seq<Seq<char>>)
    requires
        checked_names(names, false) is Ok,
    ensures
        checked_names(names, false)->Ok_0 == names,
        forall|i: int|
            0 <= i < names.len() ==> is_identifier(#[trigger] names[i]) && !keywords().contains(names[i])
                && names[i][0] != '_',
    decreases names.len(),
{
    if names.len() > 0 {
        let head = names.drop_last();
        accepted_names_are_kept(head);
        assert(head.push(names.last()) =~= names);
        assert forall|i: int| 0 <= i < names.len() implies is_identifier(#[trigger] names[i]) && !keywords().contains(
            names[i],
        ) && names[i][0] != '_' by {
            if i < names.len() - 1 {
                assert(names[i] == head[i]);
            }
        }
    } else {
        assert(checked_names(names, false)->Ok_0 =~= names);
    }
}

/// With renaming, every list of names is accepted.
pub proof fn renaming_never_fails(names: Seq<Seq<char>>)
    ensures
        checked_names(names, true) is Ok,
    decreases names.len(),
{
    if names.len() > 0 {
        renaming_never_fails(names.drop_last());
    }
}

} // verus!
