//! Which argument of a function of the `re` module means what.

use crate::args::{ArgValues, arg_values};
use crate::equality::Scene;
use crate::exceptions::{ErrorView, ExcType, RunError};
use crate::heap::HeapModel;
use crate::modules::ModuleFunctions;
use crate::modules::re::{ReFunctions, RePlanView, decision, escape_text, is_special, or_else, scan, value_at};
use crate::resource::ResourceTracker;
use crate::types::mappings::{DictEntry, lemma_flat_index, lemma_flat_len};
use crate::types::py_trait::{AttrCallResult, NativeCall, RegexCall};
use crate::value::Value;
use vstd::prelude::*;

verus! {

/// The number that an integer or a boolean stands for.
pub open spec fn integer(v: Value) -> Option<int> {
    match v {
        Value::Int(n) => Some(n as int),
        Value::Bool(b) => Some(if b { 1 } else { 0 }),
        _ => None,
    }
}

/// Is the value the argument that comes at a place or by a name? It is the positional
/// argument where there are enough of them, and else the last keyword argument with the
/// name. There is none where neither is given.
pub open spec fn chosen<T: ResourceTracker>(
    s: Scene<T>,
    pos: Seq<Value>,
    kws: Seq<DictEntry>,
    at: int,
    name: Seq<char>,
    v: Option<Value>,
) -> bool {
    if at < pos.len() {
        v == Some(pos[at])
    } else {
        match v {
            Some(v) => exists|k: int|
                {
                    &&& 0 <= k < kws.len()
                    &&& s.text((#[trigger] kws[k]).key) == Some(name)
                    &&& kws[k].value == v
                    &&& forall|m: int| k < m < kws.len() ==> s.text((#[trigger] kws[m]).key) != Some(name)
                },
            None => forall|m: int| 0 <= m < kws.len() ==> s.text((#[trigger] kws[m]).key) != Some(name),
        }
    }
}

/// Has each keyword one of two names, that of the argument at the given place and that of
/// the flags behind it, and is it not given by position as well?
pub open spec fn known_keywords<T: ResourceTracker>(
    s: Scene<T>,
    given: nat,
    kws: Seq<DictEntry>,
    at: int,
    name: Seq<char>,
) -> bool {
    forall|k: int|
        0 <= k < kws.len() ==> {
            ||| s.text((#[trigger] kws[k]).key) == Some(name) && given <= at
            ||| s.text(kws[k].key) == Some("flags"@) && given <= at + 1
        }
}

/// Are these the flags that an argument gives? Without one there are none.
pub open spec fn flags_read(v: Option<Value>, flags: u16) -> bool {
    match v {
        Some(v) => integer(v) == Some(flags as int),
        None => flags == 0,
    }
}

/// Can flags be read from the argument, where there is one?
pub open spec fn flags_readable(v: Option<Value>) -> bool {
    v matches Some(v) ==> (integer(v) matches Some(n) && 0 <= n <= u16::MAX)
}

/// Is the argument a negative number?
pub open spec fn negative(v: Option<Value>) -> bool {
    v matches Some(v) && (integer(v) matches Some(n) && n < 0)
}

/// Does the call do what its arguments ask for?
///
/// The pattern comes first. `sub` has the replacement next, and then all have the text. What
/// follows limits `sub` and `split`, and flags come last. Zero stands for no limit.
pub open spec fn requested<T: ResourceTracker>(
    s: Scene<T>,
    f: ReFunctions,
    pos: Seq<Value>,
    kws: Seq<DictEntry>,
    call: RegexCall,
) -> bool {
    &&& call.function == f
    &&& pos.len() > 0
    &&& s.text(pos[0]) == Some(call.pattern@)
    &&& match f {
        ReFunctions::Compile => {
            &&& pos.len() <= 2
            &&& kws.len() == 0
            &&& flags_read(if pos.len() > 1 { Some(pos[1]) } else { None }, call.flags)
            &&& call.text@.len() == 0
            &&& call.repl@.len() == 0
            &&& call.limit == 0
        },
        ReFunctions::Sub => {
            &&& 3 <= pos.len() <= 5
            &&& s.text(pos[1]) == Some(call.repl@)
            &&& s.text(pos[2]) == Some(call.text@)
            &&& known_keywords(s, pos.len(), kws, 3, "count"@)
            &&& exists|count: Option<Value>, flags: Option<Value>|
                {
                    &&& #[trigger] chosen(s, pos, kws, 3, "count"@, count)
                    &&& #[trigger] chosen(s, pos, kws, 4, "flags"@, flags)
                    &&& flags_read(flags, call.flags)
                    &&& match count {
                        Some(v) => integer(v) matches Some(n) && n >= 0 && call.limit == n as usize,
                        None => call.limit == 0,
                    }
                }
        },
        ReFunctions::Split => {
            &&& 2 <= pos.len() <= 4
            &&& s.text(pos[1]) == Some(call.text@)
            &&& call.repl@.len() == 0
            &&& known_keywords(s, pos.len(), kws, 2, "maxsplit"@)
            &&& exists|limit: Option<Value>, flags: Option<Value>|
                {
                    &&& #[trigger] chosen(s, pos, kws, 2, "maxsplit"@, limit)
                    &&& #[trigger] chosen(s, pos, kws, 3, "flags"@, flags)
                    &&& flags_read(flags, call.flags)
                    &&& match limit {
                        Some(v) => integer(v) matches Some(n) && call.limit == if n > 0 {
                            n as usize
                        } else {
                            0
                        },
                        None => call.limit == 0,
                    }
                }
        },
        ReFunctions::Escape => false,
        _ => {
            &&& 2 <= pos.len() <= 3
            &&& kws.len() == 0
            &&& s.text(pos[1]) == Some(call.text@)
            &&& flags_read(if pos.len() > 2 { Some(pos[2]) } else { None }, call.flags)
            &&& call.repl@.len() == 0
            &&& call.limit == 0
        },
    }
}

/// Can the function do something with the arguments?
pub open spec fn acceptable<T: ResourceTracker>(
    s: Scene<T>,
    f: ReFunctions,
    pos: Seq<Value>,
    kws: Seq<DictEntry>,
) -> bool {
    match f {
        ReFunctions::Compile => {
            &&& 1 <= pos.len() <= 2
            &&& kws.len() == 0
            &&& s.text(pos[0]) is Some
            &&& flags_readable(if pos.len() > 1 { Some(pos[1]) } else { None })
        },
        ReFunctions::Sub => {
            &&& 3 <= pos.len() <= 5
            &&& known_keywords(s, pos.len(), kws, 3, "count"@)
            &&& exists|count: Option<Value>, flags: Option<Value>|
                {
                    &&& #[trigger] chosen(s, pos, kws, 3, "count"@, count)
                    &&& #[trigger] chosen(s, pos, kws, 4, "flags"@, flags)
                    &&& flags_readable(flags)
                    &&& count matches Some(v) ==> integer(v) is Some
                    &&& s.text(pos[2]) is Some
                    &&& negative(count) || (s.text(pos[0]) is Some && s.text(pos[1]) is Some)
                }
        },
        ReFunctions::Split => {
            &&& 2 <= pos.len() <= 4
            &&& known_keywords(s, pos.len(), kws, 2, "maxsplit"@)
            &&& s.text(pos[0]) is Some
            &&& s.text(pos[1]) is Some
            &&& exists|limit: Option<Value>, flags: Option<Value>|
                {
                    &&& #[trigger] chosen(s, pos, kws, 2, "maxsplit"@, limit)
                    &&& #[trigger] chosen(s, pos, kws, 3, "flags"@, flags)
                    &&& flags_readable(flags)
                    &&& limit matches Some(v) ==> integer(v) is Some
                }
        },
        ReFunctions::Escape => pos.len() == 1 && kws.len() == 0 && s.text(pos[0]) is Some,
        _ => {
            &&& 2 <= pos.len() <= 3
            &&& kws.len() == 0
            &&& s.text(pos[0]) is Some
            &&& s.text(pos[1]) is Some
            &&& flags_readable(if pos.len() > 2 { Some(pos[2]) } else { None })
        },
    }
}

/// Does a position lead to the last value with the name among the keywords from number `j`
/// on, or is it still `before` where there is none?
spec fn leads_to<T: ResourceTracker>(
    s: Scene<T>,
    n: nat,
    kws: Seq<DictEntry>,
    j: nat,
    name: Seq<char>,
    before: Option<usize>,
    at: Option<usize>,
) -> bool {
    ||| at == before && forall|m: int| j <= m < kws.len() ==> s.text((#[trigger] kws[m]).key) != Some(name)
    ||| exists|k: int|
        {
            &&& j <= k < kws.len()
            &&& s.text((#[trigger] kws[k]).key) == Some(name)
            &&& at == Some((n + 2 * k + 1) as usize)
            &&& forall|m: int| k < m < kws.len() ==> s.text((#[trigger] kws[m]).key) != Some(name)
        }
}

proof fn lemma_scan<T: ResourceTracker>(
    s: Scene<T>,
    func: Seq<char>,
    name: Seq<char>,
    pos: Seq<Value>,
    kws: Seq<DictEntry>,
    j: nat,
    has_first: bool,
    has_flags: bool,
    first: Option<usize>,
    flags: Option<usize>,
)
    requires
        j <= kws.len(),
        name != "flags"@,
        pos.len() + 2 * kws.len() <= usize::MAX,
    ensures
        ({
            let r = scan(
                s,
                func,
                name,
                arg_values(pos, kws),
                pos.len() + 2 * j,
                has_first,
                has_flags,
                first,
                flags,
            );
            &&& r.error is None <==> forall|k: int|
                j <= k < kws.len() ==> {
                    ||| s.text((#[trigger] kws[k]).key) == Some(name) && !has_first
                    ||| s.text(kws[k].key) == Some("flags"@) && !has_flags
                }
            &&& r.error is None ==> leads_to(s, pos.len(), kws, j, name, first, r.first)
            &&& r.error is None ==> leads_to(s, pos.len(), kws, j, "flags"@, flags, r.flags)
        }),
    decreases kws.len() - j,
{
    let all = arg_values(pos, kws);
    let next = pos.len() + 2 * j;
    lemma_flat_len(kws);
    assert(all.len() == pos.len() + 2 * kws.len());
    if j < kws.len() {
        lemma_flat_index(kws, j as int);
        assert(all[next as int] == kws[j as int].key);
        assert(next + 2 == pos.len() + 2 * (j + 1));
        let at = Some((next + 1) as usize);
        if s.text(kws[j as int].key) == Some(name) {
            if !has_first {
                lemma_scan(s, func, name, pos, kws, j + 1, has_first, has_flags, at, flags);
            }
        } else if s.text(kws[j as int].key) == Some("flags"@) {
            if !has_flags {
                lemma_scan(s, func, name, pos, kws, j + 1, has_first, has_flags, first, at);
            }
        }
    }
}

proof fn lemma_chosen<T: ResourceTracker>(
    s: Scene<T>,
    pos: Seq<Value>,
    kws: Seq<DictEntry>,
    place: int,
    name: Seq<char>,
    at: Option<usize>,
)
    requires
        0 <= place,
        pos.len() + 2 * kws.len() <= usize::MAX,
        leads_to(s, pos.len(), kws, 0, name, None, at),
    ensures
        chosen(
            s,
            pos,
            kws,
            place,
            name,
            value_at(
                arg_values(pos, kws),
                or_else(
                    if pos.len() > place {
                        Some(place as usize)
                    } else {
                        None
                    },
                    at,
                ),
            ),
        ),
{
    lemma_flat_len(kws);
    if pos.len() <= place && at is Some {
        let k = choose|k: int|
            {
                &&& 0 <= k < kws.len()
                &&& s.text((#[trigger] kws[k]).key) == Some(name)
                &&& at == Some((pos.len() + 2 * k + 1) as usize)
                &&& forall|m: int| k < m < kws.len() ==> s.text((#[trigger] kws[m]).key) != Some(name)
            };
        lemma_flat_index(kws, k);
        assert(arg_values(pos, kws)[pos.len() + 2 * k + 1] == kws[k].value);
    }
}

pub proof fn lemma_chosen_once<T: ResourceTracker>(
    s: Scene<T>,
    pos: Seq<Value>,
    kws: Seq<DictEntry>,
    at: int,
    name: Seq<char>,
    v: Option<Value>,
    w: Option<Value>,
)
    requires
        chosen(s, pos, kws, at, name, v),
        chosen(s, pos, kws, at, name, w),
    ensures
        v == w,
{
}

proof fn lemma_names_differ()
    ensures
        "count"@ != "flags"@,
        "maxsplit"@ != "flags"@,
{
    reveal_strlit("count");
    reveal_strlit("flags");
    reveal_strlit("maxsplit");
    assert("count"@[0] == 'c');
    assert("flags"@[0] == 'f');
    assert("maxsplit"@[0] == 'm');
}

proof fn lemma_sub<T: ResourceTracker>(s: Scene<T>, pos: Seq<Value>, kws: Seq<DictEntry>)
    requires
        pos.len() + 2 * kws.len() <= usize::MAX,
    ensures
        ({
            let d = decision(s, ReFunctions::Sub, pos, kws);
            &&& d is Ok <==> acceptable(s, ReFunctions::Sub, pos, kws)
            &&& d matches Ok(RePlanView::Regex(c)) ==> forall|call: RegexCall| #[trigger]
                call@ == c ==> requested(s, ReFunctions::Sub, pos, kws, call)
            &&& d matches Ok(RePlanView::Text(t)) ==> {
                &&& s.text(pos[2]) == Some(t)
                &&& exists|count: Option<Value>| #[trigger]
                    chosen(s, pos, kws, 3, "count"@, count) && negative(count)
            }
        }),
{
    lemma_names_differ();
    let n = pos.len();
    if 3 <= n <= 5 {
        let all = arg_values(pos, kws);
        let kw = scan(s, "re.sub"@, "count"@, all, n, n > 3, n > 4, None, None);
        assert(n + 2 * 0 == n);
        lemma_scan(s, "re.sub"@, "count"@, pos, kws, 0, n > 3, n > 4, None, None);
        assert(kw.error is None <==> known_keywords(s, n, kws, 3, "count"@));
        if kw.error is None {
            lemma_chosen(s, pos, kws, 3, "count"@, kw.first);
            lemma_chosen(s, pos, kws, 4, "flags"@, kw.flags);
            let count = value_at(all, or_else(if n > 3 { Some(3usize) } else { None }, kw.first));
            let flags = value_at(all, or_else(if n > 4 { Some(4usize) } else { None }, kw.flags));
            assert(chosen(s, pos, kws, 3, "count"@, count));
            assert(chosen(s, pos, kws, 4, "flags"@, flags));
            assert forall|c: Option<Value>, g: Option<Value>| #[trigger]
                chosen(s, pos, kws, 3, "count"@, c) && #[trigger] chosen(s, pos, kws, 4, "flags"@, g) implies c == count
                && g == flags by {
                lemma_chosen_once(s, pos, kws, 3, "count"@, c, count);
                lemma_chosen_once(s, pos, kws, 4, "flags"@, g, flags);
            }
            assert(all[0] == pos[0] && all[1] == pos[1] && all[2] == pos[2]);
        }
    }
}

proof fn lemma_split<T: ResourceTracker>(s: Scene<T>, pos: Seq<Value>, kws: Seq<DictEntry>)
    requires
        pos.len() + 2 * kws.len() <= usize::MAX,
    ensures
        ({
            let d = decision(s, ReFunctions::Split, pos, kws);
            &&& d is Ok <==> acceptable(s, ReFunctions::Split, pos, kws)
            &&& d matches Ok(RePlanView::Regex(c)) ==> forall|call: RegexCall| #[trigger]
                call@ == c ==> requested(s, ReFunctions::Split, pos, kws, call)
            &&& !(d matches Ok(RePlanView::Text(_)))
        }),
{
    lemma_names_differ();
    let n = pos.len();
    if 2 <= n <= 4 {
        let all = arg_values(pos, kws);
        let kw = scan(s, "re.split"@, "maxsplit"@, all, n, n > 2, n > 3, None, None);
        assert(n + 2 * 0 == n);
        lemma_scan(s, "re.split"@, "maxsplit"@, pos, kws, 0, n > 2, n > 3, None, None);
        assert(kw.error is None <==> known_keywords(s, n, kws, 2, "maxsplit"@));
        if kw.error is None {
            lemma_chosen(s, pos, kws, 2, "maxsplit"@, kw.first);
            lemma_chosen(s, pos, kws, 3, "flags"@, kw.flags);
            let limit = value_at(all, or_else(if n > 2 { Some(2usize) } else { None }, kw.first));
            let flags = value_at(all, or_else(if n > 3 { Some(3usize) } else { None }, kw.flags));
            assert(chosen(s, pos, kws, 2, "maxsplit"@, limit));
            assert(chosen(s, pos, kws, 3, "flags"@, flags));
            assert forall|c: Option<Value>, g: Option<Value>| #[trigger]
                chosen(s, pos, kws, 2, "maxsplit"@, c) && #[trigger] chosen(s, pos, kws, 3, "flags"@, g) implies c
                == limit && g == flags by {
                lemma_chosen_once(s, pos, kws, 2, "maxsplit"@, c, limit);
                lemma_chosen_once(s, pos, kws, 3, "flags"@, g, flags);
            }
            assert(all[0] == pos[0] && all[1] == pos[1]);
        }
    }
}

/// A call of a function of the module succeeds just if its arguments are acceptable. It
/// then asks the regex engine for what the arguments say, or has a text right away: the
/// text with special characters escaped, or the text itself where less than nothing is to
/// be replaced.
pub proof fn regex_functions_read_their_arguments<T: ResourceTracker>(
    s: Scene<T>,
    f: ReFunctions,
    pos: Seq<Value>,
    kws: Seq<DictEntry>,
    call: RegexCall,
)
    requires
        pos.len() + 2 * kws.len() <= usize::MAX,
    ensures
        decision(s, f, pos, kws) is Ok <==> acceptable(s, f, pos, kws),
        decision(s, f, pos, kws) == Ok::<RePlanView, ErrorView>(RePlanView::Regex(call@)) ==> requested(
            s,
            f,
            pos,
            kws,
            call,
        ),
        decision(s, f, pos, kws) matches Ok(RePlanView::Text(t)) ==> match f {
            ReFunctions::Escape => s.text(pos[0]) matches Some(u) && t == escape_text(u),
            ReFunctions::Sub => s.text(pos[2]) == Some(t) && exists|count: Option<Value>| #[trigger]
                chosen(s, pos, kws, 3, "count"@, count) && negative(count),
            _ => false,
        },
{
    match f {
        ReFunctions::Sub => lemma_sub(s, pos, kws),
        ReFunctions::Split => lemma_split(s, pos, kws),
        _ => {},
    }
}

/// Where a function of the module asks the regex engine, it asks for what its arguments
/// say. In `re.sub` the first argument is the pattern, the second the replacement and the
/// third the text.
pub proof fn regex_calls_get_what_was_passed<T: ResourceTracker>(
    s: Scene<T>,
    before: HeapModel<T>,
    after: HeapModel<T>,
    f: ReFunctions,
    args: ArgValues,
    r: Result<AttrCallResult, RunError>,
)
    requires
        args.positional().len() + 2 * args.keywords().len() <= usize::MAX,
        ModuleFunctions::Re(f).calls(s, before, after, args, r),
    ensures
        r matches Ok(AttrCallResult::Native(native)) ==> (native matches NativeCall::Regex(call) && requested(
            s,
            f,
            args.positional(),
            args.keywords(),
            call,
        )),
        acceptable(s, f, args.positional(), args.keywords()) ==> match r {
            Ok(_) => true,
            Err(e) => e is Resource,
        },
        r is Ok ==> acceptable(s, f, args.positional(), args.keywords()),
{
    if let Ok(AttrCallResult::Native(NativeCall::Regex(call))) = r {
        regex_functions_read_their_arguments(s, f, args.positional(), args.keywords(), call);
    } else {
        regex_functions_read_their_arguments(s, f, args.positional(), args.keywords(), arbitrary());
    }
}

/// Texts are escaped character by character: special ones get a backslash in front, others
/// stay as they are.
pub proof fn texts_are_escaped_piece_by_piece(a: Seq<char>, b: Seq<char>, c: char)
    ensures
        escape_text(a + b) == escape_text(a) + escape_text(b),
        escape_text(seq![c]) == if "\t\n\x0b\x0c\r #$&()*+-.?[\\]^{|}~"@.contains(c) {
            seq!['\\', c]
        } else {
            seq![c]
        },
    decreases b.len(),
{
    let special = "\t\n\x0b\x0c\r #$&()*+-.?[\\]^{|}~"@;
    reveal_strlit("\t\n\x0b\x0c\r #$&()*+-.?[\\]^{|}~");
    assert(special.len() == 24);
    assert(special[0] == '\t');
    assert(special[1] == '\n');
    assert(special[2] == '\x0b');
    assert(special[3] == '\x0c');
    assert(special[4] == '\r');
    assert(special[5] == ' ');
    assert(special[6] == '#');
    assert(special[7] == '$');
    assert(special[8] == '&');
    assert(special[9] == '(');
    assert(special[10] == ')');
    assert(special[11] == '*');
    assert(special[12] == '+');
    assert(special[13] == '-');
    assert(special[14] == '.');
    assert(special[15] == '?');
    assert(special[16] == '[');
    assert(special[17] == '\\');
    assert(special[18] == ']');
    assert(special[19] == '^');
    assert(special[20] == '{');
    assert(special[21] == '|');
    assert(special[22] == '}');
    assert(special[23] == '~');
    assert(is_special(c) == special.contains(c));
    assert(seq![c].drop_last() =~= Seq::<char>::empty());
    assert(escape_text(Seq::<char>::empty()) == Seq::<char>::empty());
    if is_special(c) {
        assert(Seq::<char>::empty().push('\\').push(c) =~= seq!['\\', c]);
    } else {
        assert(Seq::<char>::empty().push(c) =~= seq![c]);
    }
    if b.len() == 0 {
        assert(a + b =~= a);
        assert(escape_text(a) + escape_text(b) =~= escape_text(a));
    } else {
        texts_are_escaped_piece_by_piece(a, b.drop_last(), c);
        assert((a + b).drop_last() =~= a + b.drop_last());
        assert((a + b).last() == b.last());
        assert(escape_text(a + b) =~= escape_text(a) + escape_text(b));
    }
}

/// A function is named in messages by its name behind that of the module.
pub proof fn messages_name_the_function(f: ReFunctions)
    ensures
        f.full_name() == "re."@ + f.name(),
{
    reveal_strlit("re.");
    reveal_strlit("compile");
    reveal_strlit("re.compile");
    reveal_strlit("search");
    reveal_strlit("re.search");
    reveal_strlit("match");
    reveal_strlit("re.match");
    reveal_strlit("fullmatch");
    reveal_strlit("re.fullmatch");
    reveal_strlit("findall");
    reveal_strlit("re.findall");
    reveal_strlit("sub");
    reveal_strlit("re.sub");
    reveal_strlit("split");
    reveal_strlit("re.split");
    reveal_strlit("finditer");
    reveal_strlit("re.finditer");
    reveal_strlit("escape");
    reveal_strlit("re.escape");
    assert(f.full_name() =~= "re."@ + f.name());
}

/// The name of the argument at a place, where one has to be there.
pub open spec fn required_at(f: ReFunctions, place: nat) -> Option<Seq<char>> {
    match f {
        ReFunctions::Compile | ReFunctions::Escape => None,
        ReFunctions::Sub if place == 1 => Some("repl"@),
        ReFunctions::Sub if place == 2 => Some("string"@),
        _ if place == 0 => Some("pattern"@),
        ReFunctions::Sub => None,
        _ if place == 1 => Some("string"@),
        _ => None,
    }
}

/// Where an argument is missing, the error names the function and the first one that is
/// missing.
pub proof fn missing_arguments_are_named<T: ResourceTracker>(
    s: Scene<T>,
    f: ReFunctions,
    pos: Seq<Value>,
    kws: Seq<DictEntry>,
)
    ensures
        (f is Sub || f is Split || kws.len() == 0) ==> (required_at(f, pos.len()) matches Some(name) ==> decision(
            s,
            f,
            pos,
            kws,
        ) == Err::<RePlanView, ErrorView>(
            ErrorView::Exc(
                ExcType::TypeError,
                Some("re."@ + f.name() + "() missing required argument: '"@ + name + "'"@),
            ),
        )),
{
    messages_name_the_function(f);
    messages_name_the_function(ReFunctions::Sub);
    messages_name_the_function(ReFunctions::Split);
}

} // verus!
