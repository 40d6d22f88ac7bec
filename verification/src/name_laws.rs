//! How field names are split and checked, and how numbers are written.

use crate::exceptions::ErrorView;
use crate::hash::name_text;
use crate::intern::{InternTables, id_text};
use crate::text::{decimal, digit_char, numeral};
use crate::types::field_names::{accepted_names_are_kept, checked_names, in_word, name_problem, separates, words};
use crate::types::identifiers::{continues_identifier, is_identifier, keywords};
use crate::value::{EitherStr, same_name};
use vstd::prelude::*;

verus! {

/// Commas and white space separate names, and nothing else does.
pub proof fn separators_are_commas_and_white_space(c: char)
    ensures
        separates(c) <==> ", \t\n\x0c\r"@.contains(c),
{
    let all = ", \t\n\x0c\r"@;
    reveal_strlit(", \t\n\x0c\r");
    assert(all.len() == 6);
    assert(all[0] == ',' && all[1] == ' ' && all[2] == '\t' && all[3] == '\n' && all[4] == '\x0c' && all[5] == '\r');
}

/// What stands before a separator and what stands after it are split on their own, and
/// their words come one after the other.
pub proof fn separators_part_words(a: Seq<char>, c: char, b: Seq<char>)
    requires
        separates(c),
    ensures
        words(a + seq![c] + b) == words(a) + words(b),
    decreases b.len(),
{
    let whole = a + seq![c] + b;
    if b.len() == 0 {
        assert(whole.drop_last() =~= a);
        assert(whole.last() == c);
        assert(words(a) + words(b) =~= words(a));
    } else {
        separators_part_words(a, c, b.drop_last());
        assert(whole.drop_last() =~= a + seq![c] + b.drop_last());
        assert(whole.last() == b.last());
        let front = a + seq![c] + b.drop_last();
        if b.len() == 1 {
            assert(front.last() == c);
            assert(b.drop_last() =~= Seq::<char>::empty());
        } else {
            assert(front.last() == b.drop_last().last());
        }
        assert(in_word(front) == in_word(b.drop_last()));
        if in_word(b.drop_last()) {
            lemma_some_words(b.drop_last());
            assert(words(front).last() == words(b.drop_last()).last());
        }
        assert(words(whole) =~= words(a) + words(b));
    }
}

proof fn lemma_some_words(t: Seq<char>)
    requires
        in_word(t),
    ensures
        words(t).len() > 0,
    decreases t.len(),
{
    if in_word(t.drop_last()) {
        lemma_some_words(t.drop_last());
    }
}

/// A text without separators is one word, as it is.
pub proof fn words_stay_whole(w: Seq<char>)
    requires
        w.len() > 0,
        forall|k: int| 0 <= k < w.len() ==> !separates(#[trigger] w[k]),
    ensures
        words(w) == seq![w],
    decreases w.len(),
{
    let head = w.drop_last();
    assert(!separates(w[w.len() - 1]));
    if head.len() > 0 {
        assert forall|k: int| 0 <= k < head.len() implies !separates(#[trigger] head[k]) by {
            assert(head[k] == w[k]);
        }
        words_stay_whole(head);
        assert(in_word(head)) by {
            assert(!separates(head[head.len() - 1]));
        }
        assert(head.push(w.last()) =~= w);
        assert(words(w) =~= seq![w]);
    } else {
        assert(head =~= Seq::<char>::empty());
        assert(words(head) =~= Seq::<Seq<char>>::empty());
        assert(seq![w.last()] =~= w);
        assert(words(w) == words(head).push(seq![w.last()]));
        assert(words(w) =~= seq![w]);
    }
}

/// A letter or an underscore is an identifier, and stays one with letters, digits and
/// underscores behind it. Nothing that starts with a digit is one, nor anything that holds
/// another ASCII character.
pub proof fn identifiers_are_letters_digits_and_underscores(t: Seq<char>, c: char)
    ensures
        !is_identifier(Seq::empty()),
        c == '_' || 'a' <= c <= 'z' || 'A' <= c <= 'Z' ==> is_identifier(seq![c]),
        is_identifier(t) && (c == '_' || 'a' <= c <= 'z' || 'A' <= c <= 'Z' || '0' <= c <= '9') ==> is_identifier(
            t.push(c),
        ),
        t.len() > 0 && '0' <= t[0] <= '9' ==> !is_identifier(t),
        t.contains(c) && (c as u32) < 128 && !(c == '_' || 'a' <= c <= 'z' || 'A' <= c <= 'Z' || '0' <= c <= '9')
            ==> !is_identifier(t),
        is_identifier(t.push(c)) && t.len() > 0 ==> is_identifier(t),
{
    if is_identifier(t) {
        let u = t.push(c);
        assert(u[0] == t[0]);
    }
    if t.len() > 0 && is_identifier(t.push(c)) {
        let u = t.push(c);
        assert(u[0] == t[0]);
        assert forall|i: int| 0 < i < t.len() implies continues_identifier(#[trigger] t[i]) by {
            assert(u[i] == t[i]);
        }
    }
}

/// Is the name one that a field may have after those in `earlier`?
pub open spec fn proper_field(earlier: Seq<Seq<char>>, name: Seq<char>) -> bool {
    is_identifier(name) && !keywords().contains(name) && name[0] != '_' && !earlier.contains(name)
}

proof fn lemma_checked_prefix(names: Seq<Seq<char>>, rename: bool, i: int)
    requires
        0 <= i < names.len(),
        checked_names(names, rename) is Ok,
    ensures
        ({
            let r = checked_names(names, rename)->Ok_0;
            &&& r.len() == names.len()
            &&& proper_field(r.take(i), names[i]) ==> r[i] == names[i]
            &&& !proper_field(r.take(i), names[i]) ==> rename && r[i] == "_"@ + numeral(i as nat, 10)
        }),
    decreases names.len(),
{
    let r = checked_names(names, rename)->Ok_0;
    let head = names.drop_last();
    let done = checked_names(head, rename)->Ok_0;
    if head.len() > 0 {
        lemma_checked_prefix(head, rename, if i < head.len() { i } else { 0 });
    }
    if i < names.len() - 1 {
        assert(r.take(i) =~= done.take(i));
    } else {
        assert(r.take(i) =~= done);
    }
}

/// Each field gets the name that was given for it, where that is proper. An improper one is
/// replaced by an underscore and the field's number, where names are to be replaced.
pub proof fn fields_keep_their_proper_names(names: Seq<Seq<char>>, rename: bool, i: int)
    requires
        0 <= i < names.len(),
    ensures
        checked_names(names, rename) matches Ok(r) ==> {
            &&& r.len() == names.len()
            &&& r[i] == if proper_field(r.take(i), names[i]) {
                names[i]
            } else {
                "_"@ + decimal(i)
            }
            &&& proper_field(r.take(i), names[i]) || rename
        },
{
    if checked_names(names, rename) is Ok {
        lemma_checked_prefix(names, rename, i);
    }
}

/// Names are refused for the first improper one among them, which the error gives.
pub proof fn refusals_name_the_first_improper_field(names: Seq<Seq<char>>, rename: bool)
    ensures
        checked_names(names, rename) matches Err(e) ==> !rename && exists|i: int|
            {
                &&& 0 <= i < names.len()
                &&& #[trigger] checked_names(names.take(i), rename) == Ok::<Seq<Seq<char>>, ErrorView>(names.take(i))
                &&& match e {
                    ErrorView::InvalidIdentifier(name) => name == names[i] && !is_identifier(name),
                    ErrorView::KeywordName(name) => name == names[i] && keywords().contains(name),
                    ErrorView::UnderscoreField(name) => name == names[i] && name[0] == '_',
                    ErrorView::DuplicateField(name) => name == names[i] && names.take(i).contains(name),
                    _ => false,
                }
            },
    decreases names.len(),
{
    if names.len() > 0 && checked_names(names, rename) is Err {
        let head = names.drop_last();
        refusals_name_the_first_improper_field(head, rename);
        if checked_names(head, rename) is Err {
            let i = choose|i: int|
                {
                    &&& 0 <= i < head.len()
                    &&& #[trigger] checked_names(head.take(i), rename) == Ok::<Seq<Seq<char>>, ErrorView>(head.take(i))
                    &&& match checked_names(names, rename)->Err_0 {
                        ErrorView::InvalidIdentifier(name) => name == head[i] && !is_identifier(name),
                        ErrorView::KeywordName(name) => name == head[i] && keywords().contains(name),
                        ErrorView::UnderscoreField(name) => name == head[i] && name[0] == '_',
                        ErrorView::DuplicateField(name) => name == head[i] && head.take(i).contains(name),
                        _ => false,
                    }
                };
            assert(head.take(i) =~= names.take(i));
            assert(checked_names(names.take(i), rename) is Ok);
        } else {
            let last = names.len() - 1;
            assert(names.take(last) =~= head);
            if !rename {
                accepted_names_are_kept(head);
            }
            assert(checked_names(names.take(last), rename) is Ok);
        }
    }
}

/// A type gets the name that was given for it only where it is an identifier and no
/// keyword.
pub proof fn type_names_are_identifiers(name: Seq<char>)
    ensures
        name_problem(name) is None <==> is_identifier(name) && !keywords().contains(name),
        name_problem(name) matches Some(e) ==> match e {
            ErrorView::InvalidIdentifier(t) => t == name && !is_identifier(name),
            ErrorView::KeywordName(t) => t == name && keywords().contains(name),
            _ => false,
        },
{
}

/// The number that a digit stands for.
pub open spec fn digit_value(c: char) -> Option<nat> {
    if '0' <= c <= '9' {
        Some((c as nat - '0' as nat) as nat)
    } else if 'a' <= c <= 'f' {
        Some((c as nat - 'a' as nat + 10) as nat)
    } else {
        None
    }
}

/// The number that some digits stand for, the last one for units.
pub open spec fn digits_value(t: Seq<char>, base: nat) -> Option<nat>
    decreases t.len(),
{
    if t.len() == 0 {
        Some(0)
    } else {
        match (digits_value(t.drop_last(), base), digit_value(t.last())) {
            (Some(high), Some(low)) if low < base => Some(high * base + low),
            _ => None,
        }
    }
}

proof fn lemma_digit(d: nat)
    requires
        d < 16,
    ensures
        digit_value(digit_char(d)) == Some(d),
{
}

/// A number that is written can be read again, in decimal and in hexadecimal. It has no
/// leading zeros, and a minus sign just where it is negative.
pub proof fn numerals_are_read_back(n: nat, base: nat)
    requires
        2 <= base <= 16,
    ensures
        digits_value(numeral(n, base), base) == Some(n),
        numeral(n, base).len() > 0,
        n > 0 ==> numeral(n, base)[0] != '0',
    decreases n,
{
    if n < base {
        lemma_digit(n);
        let t = numeral(n, base);
        assert(t.drop_last() =~= Seq::<char>::empty());
        assert(0 * base == 0) by (nonlinear_arith);
        assert(digits_value(Seq::<char>::empty(), base) == Some(0nat));
    } else {
        vstd::arithmetic::div_mod::lemma_div_decreases(n as int, base as int);
        vstd::arithmetic::div_mod::lemma_fundamental_div_mod(n as int, base as int);
        vstd::arithmetic::div_mod::lemma_div_non_zero(n as int, base as int);
        numerals_are_read_back(n / base, base);
        lemma_digit(n % base);
        let t = numeral(n, base);
        assert(t.drop_last() =~= numeral(n / base, base));
        assert((n / base) * base == base * (n / base)) by (nonlinear_arith);
    }
}

/// An integer is written as its digits, with a minus sign in front where it is negative.
pub proof fn decimals_are_read_back(n: int)
    ensures
        n >= 0 ==> digits_value(decimal(n), 10) == Some(n as nat),
        n < 0 ==> decimal(n).len() > 1 && decimal(n)[0] == '-' && digits_value(decimal(n).skip(1), 10) == Some(
            (-n) as nat,
        ),
{
    if n >= 0 {
        numerals_are_read_back(n as nat, 10);
    } else {
        numerals_are_read_back((-n) as nat, 10);
        assert(decimal(n).skip(1) =~= numeral((-n) as nat, 10));
    }
}

/// A name is the text that it was given as, or that of the interned string.
pub proof fn names_have_their_texts(tables: InternTables, name: EitherStr, other: EitherStr)
    ensures
        match name {
            EitherStr::Heap(t) => name_text(tables, name) == t@,
            EitherStr::Interned(id) => name_text(tables, name) == id_text(tables.strings, id),
        },
        same_name(name, other) ==> name_text(tables, name) == name_text(tables, other),
{
}

} // verus!
