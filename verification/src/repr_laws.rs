//! How values are shown: what a reader of the text can tell.

use crate::equality::Scene;
use crate::hash::name_text;
use crate::heap::deeper;
use crate::heap_data::HeapData;
use crate::heap_model::data_at;
use crate::intern::{FunctionId, id_text};
use crate::module_laws::{absent, leads, lookups_find_the_first_entry};
use crate::name_laws::digit_value;
use crate::repr::{
    bytes_repr, escaped, escaped_byte, escaped_bytes, escaped_char, option_repr, quote_for, range_repr, slice_repr,
    str_repr,
};
use crate::resource::ResourceTracker;
use crate::text::{decimal, digit_char, texts};
use crate::types::lookup::value_of;
use crate::types::mappings::DictEntry;
use crate::types::scalars::{Range, Slice};
use crate::value::{EitherStr, HeapId, Value};
use vstd::prelude::*;

verus! {

/// Some texts, with a comma and a space between one and the next.
pub open spec fn joined(parts: Seq<Seq<char>>) -> Seq<char>
    decreases parts.len(),
{
    if parts.len() == 0 {
        Seq::empty()
    } else if parts.len() == 1 {
        parts[0]
    } else {
        parts[0] + ", "@ + joined(parts.drop_first())
    }
}

proof fn lemma_joined(parts: Seq<Seq<char>>)
    requires
        parts.len() > 1,
    ensures
        joined(parts) == joined(parts.drop_last()) + ", "@ + parts.last(),
    decreases parts.len(),
{
    let rest = parts.drop_first();
    if parts.len() == 2 {
        assert(joined(parts.drop_last()) == parts.drop_last()[0]);
        assert(joined(rest) == rest[0]);
        assert(joined(parts) == parts[0] + ", "@ + joined(rest));
        assert(joined(parts) =~= joined(parts.drop_last()) + ", "@ + parts.last());
    } else {
        lemma_joined(rest);
        assert(rest.drop_last() =~= parts.drop_last().drop_first());
        assert(rest.last() == parts.last());
        assert(parts.drop_last()[0] == parts[0]);
        assert(joined(parts) =~= joined(parts.drop_last()) + ", "@ + parts.last());
    }
}

/// Are these the texts that a container's items are shown by, in order? Fields and keys
/// stand before their values.
pub open spec fn shown_by<T: ResourceTracker>(
    s: Scene<T>,
    data: HeapData,
    seen: Set<usize>,
    depth: usize,
    parts: Seq<Seq<char>>,
) -> bool {
    match data {
        HeapData::List(x) => each_shown(s, x.items@, seen, depth, parts),
        HeapData::Tuple(x) => each_shown(s, x@, seen, depth, parts),
        HeapData::PySet(x) => each_shown(s, x.storage.items@, seen, depth, parts),
        HeapData::FrozenSet(x) => each_shown(s, x.storage.items@, seen, depth, parts),
        HeapData::NamedTuple(x) => parts.len() == x.items@.len() && forall|i: int|
            0 <= i < parts.len() ==> #[trigger] parts[i] == name_text(s.tables, x.field_names@[i]) + "="@ + s.repr_value(
                x.items@[i],
                seen,
                depth,
            ),
        HeapData::Dict(x) => parts.len() == x.entries@.len() && forall|i: int|
            0 <= i < parts.len() ==> #[trigger] parts[i] == s.repr_value(x.entries@[i].key, seen, depth) + ": "@
                + s.repr_value(x.entries@[i].value, seen, depth),
        HeapData::Dataclass(x) => parts.len() == x.field_names@.len() && forall|i: int|
            0 <= i < parts.len() ==> {
                ||| absent(s, x.attrs.entries@, x.field_names@[i]@) && #[trigger] parts[i] == x.field_names@[i]@ + "="@
                    + "<?>"@
                ||| exists|v: Value| #[trigger]
                    leads(s, x.attrs.entries@, x.field_names@[i]@, v) && parts[i] == x.field_names@[i]@ + "="@
                        + s.repr_value(v, seen, depth)
            },
        _ => false,
    }
}

/// Are these the texts that some values are shown by, in order?
pub open spec fn each_shown<T: ResourceTracker>(
    s: Scene<T>,
    items: Seq<Value>,
    seen: Set<usize>,
    depth: usize,
    parts: Seq<Seq<char>>,
) -> bool {
    parts.len() == items.len() && forall|i: int|
        0 <= i < parts.len() ==> #[trigger] parts[i] == s.repr_value(items[i], seen, depth)
}

proof fn lemma_items<T: ResourceTracker>(
    s: Scene<T>,
    items: Seq<Value>,
    seen: Set<usize>,
    depth: usize,
    parts: Seq<Seq<char>>,
)
    requires
        each_shown(s, items, seen, depth, parts),
    ensures
        s.repr_items(items, seen, depth) == joined(parts),
    decreases items.len(),
{
    if items.len() == 1 {
        assert(parts[0] == s.repr_value(items[0], seen, depth));
    } else if items.len() > 1 {
        assert(each_shown(s, items.drop_last(), seen, depth, parts.drop_last())) by {
            assert forall|i: int| 0 <= i < parts.len() - 1 implies #[trigger] parts.drop_last()[i] == s.repr_value(
                items.drop_last()[i],
                seen,
                depth,
            ) by {
                assert(parts[i] == s.repr_value(items[i], seen, depth));
            }
        }
        lemma_items(s, items.drop_last(), seen, depth, parts.drop_last());
        lemma_joined(parts);
        assert(parts[parts.len() - 1] == s.repr_value(items[items.len() - 1], seen, depth));
    }
}

proof fn lemma_fields<T: ResourceTracker>(
    s: Scene<T>,
    names: Seq<EitherStr>,
    items: Seq<Value>,
    seen: Set<usize>,
    depth: usize,
    parts: Seq<Seq<char>>,
)
    requires
        names.len() == items.len(),
        parts.len() == items.len(),
        forall|i: int|
            0 <= i < parts.len() ==> #[trigger] parts[i] == name_text(s.tables, names[i]) + "="@ + s.repr_value(
                items[i],
                seen,
                depth,
            ),
    ensures
        s.repr_fields(names, items, seen, depth) == joined(parts),
    decreases items.len(),
{
    if items.len() > 0 {
        let last = items.len() - 1;
        assert(parts[last] == name_text(s.tables, names[last]) + "="@ + s.repr_value(items[last], seen, depth));
        if items.len() > 1 {
            assert forall|i: int| 0 <= i < parts.len() - 1 implies #[trigger] parts.drop_last()[i] == name_text(
                s.tables,
                names.drop_last()[i],
            ) + "="@ + s.repr_value(items.drop_last()[i], seen, depth) by {
                assert(parts[i] == name_text(s.tables, names[i]) + "="@ + s.repr_value(items[i], seen, depth));
            }
            lemma_fields(s, names.drop_last(), items.drop_last(), seen, depth, parts.drop_last());
            lemma_joined(parts);
        }
    }
}

proof fn lemma_entries<T: ResourceTracker>(
    s: Scene<T>,
    es: Seq<DictEntry>,
    seen: Set<usize>,
    depth: usize,
    parts: Seq<Seq<char>>,
)
    requires
        parts.len() == es.len(),
        forall|i: int|
            0 <= i < parts.len() ==> #[trigger] parts[i] == s.repr_value(es[i].key, seen, depth) + ": "@ + s.repr_value(
                es[i].value,
                seen,
                depth,
            ),
    ensures
        s.repr_entries(es, seen, depth) == joined(parts),
    decreases es.len(),
{
    if es.len() > 0 {
        let last = es.len() - 1;
        assert(parts[last] == s.repr_value(es[last].key, seen, depth) + ": "@ + s.repr_value(es[last].value, seen, depth));
        if es.len() > 1 {
            assert forall|i: int| 0 <= i < parts.len() - 1 implies #[trigger] parts.drop_last()[i] == s.repr_value(
                es.drop_last()[i].key,
                seen,
                depth,
            ) + ": "@ + s.repr_value(es.drop_last()[i].value, seen, depth) by {
                assert(parts[i] == s.repr_value(es[i].key, seen, depth) + ": "@ + s.repr_value(es[i].value, seen, depth));
            }
            lemma_entries(s, es.drop_last(), seen, depth, parts.drop_last());
            lemma_joined(parts);
        }
    }
}

/// How a field of a dataclass is shown.
spec fn attr_part<T: ResourceTracker>(
    s: Scene<T>,
    es: Seq<DictEntry>,
    name: Seq<char>,
    seen: Set<usize>,
    depth: usize,
) -> Seq<char> {
    name + "="@ + match value_of(s, es, name) {
        Some(v) => s.repr_value(v, seen, depth),
        None => "<?>"@,
    }
}

proof fn lemma_attrs<T: ResourceTracker>(
    s: Scene<T>,
    names: Seq<Seq<char>>,
    es: Seq<DictEntry>,
    seen: Set<usize>,
    depth: usize,
    parts: Seq<Seq<char>>,
)
    requires
        parts.len() == names.len(),
        forall|i: int| 0 <= i < parts.len() ==> #[trigger] parts[i] == attr_part(s, es, names[i], seen, depth),
    ensures
        s.repr_attrs(names, es, seen, depth) == joined(parts),
    decreases names.len(),
{
    if names.len() > 0 {
        let last = names.len() - 1;
        assert(parts[last] == attr_part(s, es, names[last], seen, depth));
        if names.len() > 1 {
            assert forall|i: int| 0 <= i < parts.len() - 1 implies #[trigger] parts.drop_last()[i] == attr_part(
                s,
                es,
                names.drop_last()[i],
                seen,
                depth,
            ) by {
                assert(parts[i] == attr_part(s, es, names[i], seen, depth));
            }
            lemma_attrs(s, names.drop_last(), es, seen, depth, parts.drop_last());
            lemma_joined(parts);
        }
    }
}

/// A value that a text leads to is the only one.
proof fn lemma_leads_once<T: ResourceTracker>(s: Scene<T>, es: Seq<DictEntry>, key: Seq<char>, v: Value)
    ensures
        leads(s, es, key, v) ==> value_of(s, es, key) == Some(v),
        absent(s, es, key) ==> value_of(s, es, key) is None,
{
    lookups_find_the_first_entry(s, es, key);
    if leads(s, es, key, v) {
        let i = choose|i: int|
            {
                &&& 0 <= i < es.len()
                &&& s.text((#[trigger] es[i]).key) == Some(key)
                &&& es[i].value == v
                &&& forall|j: int| 0 <= j < i ==> s.text((#[trigger] es[j]).key) != Some(key)
            };
        if let Some(w) = value_of(s, es, key) {
            let k = choose|k: int|
                {
                    &&& 0 <= k < es.len()
                    &&& s.text((#[trigger] es[k]).key) == Some(key)
                    &&& es[k].value == w
                    &&& forall|j: int| 0 <= j < k ==> s.text((#[trigger] es[j]).key) != Some(key)
                };
            assert(s.text(es[i].key) == Some(key) && s.text(es[k].key) == Some(key));
            assert(i == k);
        } else {
            assert(s.text(es[i].key) != Some(key));
        }
    }
    if absent(s, es, key) {
        if let Some(w) = value_of(s, es, key) {
            let k = choose|k: int| 0 <= k < es.len() && s.text((#[trigger] es[k]).key) == Some(key);
            assert(s.text(es[k].key) != Some(key));
        }
    }
}

/// A container is shown as its items, in order and separated by commas, in the brackets of
/// its kind. Named tuples and dataclasses have their names in front, a tuple of one item has
/// a comma behind it, and empty sets are shown as calls.
pub proof fn containers_show_their_items<T: ResourceTracker>(
    s: Scene<T>,
    data: HeapData,
    seen: Set<usize>,
    depth: usize,
    parts: Seq<Seq<char>>,
)
    requires
        deeper(s.tracker, depth) is Ok,
        shown_by(s, data, seen, (depth + 1) as usize, parts),
        data matches HeapData::NamedTuple(x) ==> x.field_names@.len() == x.items@.len(),
    ensures
        s.repr_data(data, seen, depth) == match data {
            HeapData::List(_) => "["@ + joined(parts) + "]"@,
            HeapData::Tuple(_) => "("@ + joined(parts) + (if parts.len() == 1 {
                ",)"@
            } else {
                ")"@
            }),
            HeapData::NamedTuple(x) => name_text(s.tables, x.name) + "("@ + joined(parts) + ")"@,
            HeapData::Dataclass(x) => name_text(s.tables, x.name) + "("@ + joined(parts) + ")"@,
            HeapData::PySet(_) if parts.len() == 0 => "set()"@,
            HeapData::FrozenSet(_) if parts.len() == 0 => "frozenset()"@,
            HeapData::FrozenSet(_) => "frozenset({"@ + joined(parts) + "})"@,
            _ => "{"@ + joined(parts) + "}"@,
        },
{
    let next = (depth + 1) as usize;
    match data {
        HeapData::List(x) => lemma_items(s, x.items@, seen, next, parts),
        HeapData::Tuple(x) => lemma_items(s, x@, seen, next, parts),
        HeapData::PySet(x) => lemma_items(s, x.storage.items@, seen, next, parts),
        HeapData::FrozenSet(x) => lemma_items(s, x.storage.items@, seen, next, parts),
        HeapData::NamedTuple(x) => lemma_fields(s, x.field_names@, x.items@, seen, next, parts),
        HeapData::Dict(x) => lemma_entries(s, x.entries@, seen, next, parts),
        HeapData::Dataclass(x) => {
            let names = texts(x.field_names@);
            let es = x.attrs.entries@;
            assert forall|i: int| 0 <= i < parts.len() implies #[trigger] parts[i] == attr_part(
                s,
                es,
                names[i],
                seen,
                next,
            ) by {
                let name = x.field_names@[i]@;
                assert(names[i] == name);
                if absent(s, es, name) && parts[i] == name + "="@ + "<?>"@ {
                    lemma_leads_once(s, es, name, Value::PyNone);
                } else {
                    let v = choose|v: Value| #[trigger]
                        leads(s, es, name, v) && parts[i] == name + "="@ + s.repr_value(v, seen, next);
                    lemma_leads_once(s, es, name, v);
                }
            }
            lemma_attrs(s, names, es, seen, next, parts);
        },
        _ => {},
    }
}

/// Reads characters between the quotation marks `q`, up to the end and with escapes taken
/// for what they stand for. There is nothing to read where a bare mark or another escape
/// comes in between.
pub open spec fn read_escaped(t: Seq<char>, q: char) -> Option<Seq<char>>
    decreases t.len(),
{
    if t.len() == 0 {
        Some(Seq::empty())
    } else if t[0] == q {
        None
    } else if t[0] != '\\' {
        prefixed(t[0], read_escaped(t.skip(1), q))
    } else if t.len() < 2 {
        None
    } else if t[1] == q || t[1] == '\\' {
        prefixed(t[1], read_escaped(t.skip(2), q))
    } else if t[1] == 'n' {
        prefixed('\n', read_escaped(t.skip(2), q))
    } else if t[1] == 'r' {
        prefixed('\r', read_escaped(t.skip(2), q))
    } else if t[1] == 't' {
        prefixed('\t', read_escaped(t.skip(2), q))
    } else if t[1] == 'x' && t.len() >= 4 {
        match (digit_value(t[2]), digit_value(t[3])) {
            (Some(high), Some(low)) => prefixed((high * 16 + low) as char, read_escaped(t.skip(4), q)),
            _ => None,
        }
    } else {
        None
    }
}

/// A character and then the others, where there are any to read.
pub open spec fn prefixed(c: char, rest: Option<Seq<char>>) -> Option<Seq<char>> {
    match rest {
        Some(t) => Some(seq![c] + t),
        None => None,
    }
}

/// May the character stand in what is shown? Control characters may not.
pub open spec fn printable(c: char) -> bool {
    c as u32 >= 32 && c as u32 != 127
}

proof fn lemma_hex(n: nat)
    requires
        n < 256,
    ensures
        digit_value(digit_char(n / 16)) == Some(n / 16),
        digit_value(digit_char(n % 16)) == Some(n % 16),
        printable(digit_char(n / 16)),
        printable(digit_char(n % 16)),
{
}

proof fn lemma_read_char(c: char, q: char, rest: Seq<char>)
    requires
        q == '\'' || q == '"',
    ensures
        read_escaped(escaped_char(c, q) + rest, q) == prefixed(c, read_escaped(rest, q)),
        forall|i: int| 0 <= i < escaped_char(c, q).len() ==> printable(#[trigger] escaped_char(c, q)[i]),
{
    let e = escaped_char(c, q);
    let t = e + rest;
    assert(t.skip(e.len() as int) =~= rest);
    if (c as u32) < 32 || (c as u32) == 127 {
        lemma_hex(c as u32 as nat);
        assert((c as u32) as char == c);
    }
}

proof fn lemma_read_byte(b: u8, q: char, rest: Seq<char>)
    requires
        q == '\'' || q == '"',
    ensures
        read_escaped(escaped_byte(b, q) + rest, q) == prefixed(b as char, read_escaped(rest, q)),
        forall|i: int| 0 <= i < escaped_byte(b, q).len() ==> printable(#[trigger] escaped_byte(b, q)[i]),
{
    if b < 127 {
        lemma_read_char(b as char, q, rest);
    } else {
        lemma_hex(b as nat);
        let e = escaped_byte(b, q);
        let t = e + rest;
        assert(t.skip(4) =~= rest);
        assert(t[0] == '\\' && t[1] == 'x');
    }
}

proof fn lemma_escaped_read(t: Seq<char>, q: char, rest: Seq<char>, back: Seq<char>)
    requires
        q == '\'' || q == '"',
        read_escaped(rest, q) == Some(back),
    ensures
        read_escaped(escaped(t, q) + rest, q) == Some(t + back),
        forall|i: int| 0 <= i < escaped(t, q).len() ==> printable(#[trigger] escaped(t, q)[i]),
    decreases t.len(),
{
    if t.len() == 0 {
        assert(escaped(t, q) + rest =~= rest);
        assert(t + back =~= back);
    } else {
        let c = t.last();
        lemma_read_char(c, q, rest);
        lemma_escaped_read(t.drop_last(), q, escaped_char(c, q) + rest, seq![c] + back);
        assert(escaped(t, q) + rest =~= escaped(t.drop_last(), q) + (escaped_char(c, q) + rest));
        assert(t + back =~= t.drop_last() + (seq![c] + back));
    }
}

proof fn lemma_escaped_bytes_read(b: Seq<u8>, q: char, rest: Seq<char>, back: Seq<char>)
    requires
        q == '\'' || q == '"',
        read_escaped(rest, q) == Some(back),
    ensures
        read_escaped(escaped_bytes(b, q) + rest, q) == Some(b.map_values(|x: u8| x as char) + back),
        forall|i: int| 0 <= i < escaped_bytes(b, q).len() ==> printable(#[trigger] escaped_bytes(b, q)[i]),
    decreases b.len(),
{
    let chars = b.map_values(|x: u8| x as char);
    if b.len() == 0 {
        assert(escaped_bytes(b, q) + rest =~= rest);
        assert(chars + back =~= back);
    } else {
        let x = b.last();
        lemma_read_byte(x, q, rest);
        lemma_escaped_bytes_read(b.drop_last(), q, escaped_byte(x, q) + rest, seq![x as char] + back);
        assert(escaped_bytes(b, q) + rest =~= escaped_bytes(b.drop_last(), q) + (escaped_byte(x, q) + rest));
        assert(chars + back =~= b.drop_last().map_values(|x: u8| x as char) + (seq![x as char] + back));
    }
}

/// What is shown of a string stands between two equal quotation marks and reads as the
/// string. The marks are single ones, unless the string has single ones and no double ones.
/// No control character is shown as it is.
pub proof fn strings_are_shown_readably(t: Seq<char>)
    ensures
        ({
            let r = str_repr(t);
            let q = if t.contains('\'') && !t.contains('"') {
                '"'
            } else {
                '\''
            };
            &&& r.len() >= 2
            &&& r.first() == q
            &&& r.last() == q
            &&& read_escaped(r.subrange(1, r.len() - 1), q) == Some(t)
            &&& forall|i: int| 0 <= i < r.len() ==> printable(#[trigger] r[i])
        }),
{
    let q = quote_for(t);
    let r = str_repr(t);
    lemma_escaped_read(t, q, Seq::empty(), Seq::empty());
    assert(r.subrange(1, r.len() - 1) =~= escaped(t, q) + Seq::<char>::empty());
    assert(t + Seq::<char>::empty() =~= t);
    assert forall|i: int| 0 <= i < r.len() implies printable(#[trigger] r[i]) by {
        if 0 < i < r.len() - 1 {
            assert(r[i] == escaped(t, q)[i - 1]);
        }
    }
}

/// What is shown of some bytes is a `b` and then, between two equal quotation marks, one
/// character for each byte, as it is or escaped.
pub proof fn bytes_are_shown_readably(b: Seq<u8>)
    ensures
        ({
            let r = bytes_repr(b);
            let q = if b.contains(39) && !b.contains(34) {
                '"'
            } else {
                '\''
            };
            &&& r.len() >= 3
            &&& r.first() == 'b'
            &&& r[1] == q
            &&& r.last() == q
            &&& read_escaped(r.subrange(2, r.len() - 1), q) == Some(b.map_values(|x: u8| x as char))
            &&& forall|i: int| 0 <= i < r.len() ==> printable(#[trigger] r[i])
        }),
{
    let q = if b.contains(39) && !b.contains(34) { '"' } else { '\'' };
    let r = bytes_repr(b);
    reveal_strlit("b");
    lemma_escaped_bytes_read(b, q, Seq::empty(), Seq::empty());
    let chars = b.map_values(|x: u8| x as char);
    assert(r.subrange(2, r.len() - 1) =~= escaped_bytes(b, q) + Seq::<char>::empty());
    assert(chars + Seq::<char>::empty() =~= chars);
    assert forall|i: int| 0 <= i < r.len() implies printable(#[trigger] r[i]) by {
        if 1 < i < r.len() - 1 {
            assert(r[i] == escaped_bytes(b, q)[i - 2]);
        }
    }
}

/// Strings are shown in quotation marks and are their own texts; numbers are written in
/// decimal, wherever they are stored; booleans and `None` go by their names.
pub proof fn scalars_are_shown_by_what_they_stand_for<T: ResourceTracker>(
    s: Scene<T>,
    v: Value,
    seen: Set<usize>,
    depth: usize,
)
    ensures
        s.text(v) matches Some(t) ==> s.repr_value(v, seen, depth) == str_repr(t) && s.str_value(v, depth) == t,
        s.bytes(v) matches Some(b) ==> s.repr_value(v, seen, depth) == bytes_repr(b) && s.str_value(v, depth)
            == bytes_repr(b),
        !(v is Bool) ==> (s.number(v) matches Some(n) ==> s.repr_value(v, seen, depth) == decimal(n) && s.str_value(
            v,
            depth,
        ) == decimal(n)),
        v matches Value::Bool(b) ==> s.str_value(v, depth) == (if b {
            "True"@
        } else {
            "False"@
        }),
        v is PyNone ==> s.str_value(v, depth) == "None"@,
{
}

/// `str()` shows what `repr()` shows, but for strings, exceptions and paths, of which it
/// gives the bare text.
pub proof fn texts_are_shown_bare<T: ResourceTracker>(s: Scene<T>, v: Value, depth: usize)
    ensures
        match v {
            Value::Ref(id) => match data_at(s.entries, id) {
                HeapData::Exception(e) => s.str_value(v, depth) == match e.arg {
                    Some(t) => t@,
                    None => ""@,
                },
                HeapData::Path(p) => s.str_value(v, depth) == p.path@,
                HeapData::Str(t) => s.str_value(v, depth) == t.value@,
                _ => s.str_value(v, depth) == s.repr_value(v, Set::empty(), depth),
            },
            Value::InternString(_) => Some(s.str_value(v, depth)) == s.text(v),
            _ => s.str_value(v, depth) == s.repr_value(v, Set::empty(), depth),
        },
{
    if let Value::Ref(id) = v {
        assert(set![id.0] =~= Set::<usize>::empty().insert(id.0));
        reveal_strlit("");
        assert(""@ =~= Seq::<char>::empty());
    }
}

/// A range is shown as the call that makes it, without a step of one, and a slice with all
/// three of its parts.
pub proof fn ranges_are_shown_as_calls(r: Range, sl: Slice)
    ensures
        range_repr(r) == "range("@ + joined(
            if r.step == 1 {
                seq![decimal(r.start as int), decimal(r.stop as int)]
            } else {
                seq![decimal(r.start as int), decimal(r.stop as int), decimal(r.step as int)]
            },
        ) + ")"@,
        slice_repr(sl) == "slice("@ + joined(seq![option_repr(sl.start), option_repr(sl.stop), option_repr(sl.step)])
            + ")"@,
        forall|n: i64| #[trigger] option_repr(Some(n)) == decimal(n as int),
        option_repr(None) == "None"@,
{
    let two = seq![decimal(r.start as int), decimal(r.stop as int)];
    let three = two.push(decimal(r.step as int));
    lemma_joined(two);
    assert(joined(two.drop_last()) == two[0]);
    assert(three =~= seq![decimal(r.start as int), decimal(r.stop as int), decimal(r.step as int)]);
    lemma_joined(three);
    assert(three.drop_last() =~= two);
    let bounds = seq![option_repr(sl.start), option_repr(sl.stop)];
    let parts = bounds.push(option_repr(sl.step));
    lemma_joined(bounds);
    assert(joined(bounds.drop_last()) == bounds[0]);
    lemma_joined(parts);
    assert(parts.drop_last() =~= bounds);
    assert(parts =~= seq![option_repr(sl.start), option_repr(sl.stop), option_repr(sl.step)]);
    assert(range_repr(r) =~= "range("@ + joined(if r.step == 1 { two } else { three }) + ")"@);
    assert(slice_repr(sl) =~= "slice("@ + joined(parts) + ")"@);
}

/// A container inside itself is shown as dots between its brackets, and so is one that is
/// nested too deeply.
pub proof fn cycles_are_shown_as_dots<T: ResourceTracker>(s: Scene<T>, id: HeapId, seen: Set<usize>, depth: usize)
    requires
        seen.contains(id.0) || deeper(s.tracker, depth) is Err,
    ensures
        match data_at(s.entries, id) {
            HeapData::List(_) => s.repr_value(Value::Ref(id), seen, depth) == "[...]"@,
            HeapData::Tuple(_) | HeapData::NamedTuple(_) | HeapData::Dataclass(_) => s.repr_value(
                Value::Ref(id),
                seen,
                depth,
            ) == "(...)"@,
            HeapData::Dict(_) | HeapData::PySet(_) | HeapData::FrozenSet(_) => s.repr_value(Value::Ref(id), seen, depth)
                == "{...}"@,
            _ => s.repr_value(Value::Ref(id), seen, depth) == s.repr_value(Value::Ref(id), Set::empty(), 0),
        },
{
}

/// An entry is shown as its payload is, with itself among the containers that it is shown
/// inside of.
pub proof fn entries_are_shown_as_their_payloads<T: ResourceTracker>(
    s: Scene<T>,
    id: HeapId,
    seen: Set<usize>,
    depth: usize,
)
    requires
        !seen.contains(id.0),
    ensures
        s.repr_value(Value::Ref(id), seen, depth) == s.repr_data(data_at(s.entries, id), seen.insert(id.0), depth),
{
}

/// Functions, classes, modules and coroutines are shown by their names, between angle
/// brackets. Exceptions, paths and patterns are shown as the calls that make them.
pub proof fn objects_are_shown_by_their_names<T: ResourceTracker>(
    s: Scene<T>,
    data: HeapData,
    seen: Set<usize>,
    depth: usize,
)
    ensures
        match data {
            HeapData::Closure(x) => s.repr_data(data, seen, depth) == s.repr_value(
                Value::DefFunction(x.func_id),
                seen,
                depth,
            ),
            HeapData::FunctionDefaults(x) => s.repr_data(data, seen, depth) == s.repr_value(
                Value::DefFunction(x.func_id),
                seen,
                depth,
            ),
            HeapData::Class(x) => s.repr_data(data, seen, depth) == "<class '"@ + name_text(s.tables, x.name) + "'>"@,
            HeapData::NamedTupleFactory(x) => s.repr_data(data, seen, depth) == "<class '"@ + (match x.module_name {
                None => "__main__."@,
                Some(m) => if name_text(s.tables, m).len() > 0 {
                    name_text(s.tables, m) + "."@
                } else {
                    Seq::empty()
                },
            }) + name_text(s.tables, x.typename) + "'>"@,
            HeapData::Module(x) => s.repr_data(data, seen, depth) == "<module '"@ + id_text(s.tables.strings, x.name)
                + "'>"@,
            HeapData::Coroutine(x) => s.repr_data(data, seen, depth) == "<coroutine object "@ + id_text(
                s.tables.strings,
                s.functions[x.func_id.0 as int].name.name_id,
            ) + ">"@,
            HeapData::Cell(x) => s.repr_data(data, seen, depth) == "<cell: "@ + s.type_of(x.0).name() + " object>"@,
            HeapData::Exception(x) => s.repr_data(data, seen, depth) == x.exc_type.name() + "("@ + (match x.arg {
                Some(t) => str_repr(t@),
                None => Seq::empty(),
            }) + ")"@,
            HeapData::Path(x) => s.repr_data(data, seen, depth) == "PosixPath("@ + str_repr(x.path@) + ")"@,
            HeapData::RePattern(x) => s.repr_data(data, seen, depth) == "re.compile("@ + str_repr(x.pattern@) + ")"@,
            HeapData::Range(x) => s.repr_data(data, seen, depth) == range_repr(x),
            HeapData::Slice(x) => s.repr_data(data, seen, depth) == slice_repr(x),
            _ => true,
        },
        forall|id: FunctionId| #[trigger]
            s.repr_value(Value::DefFunction(id), seen, depth) == "<function "@ + id_text(
                s.tables.strings,
                s.functions[id.0 as int].name.name_id,
            ) + " at 0x0>"@,
{
    match data {
        HeapData::NamedTupleFactory(x) => {
            let name = name_text(s.tables, x.typename);
            assert("<class '"@ + Seq::<char>::empty() + name + "'>"@ =~= "<class '"@ + name + "'>"@);
            assert("<class '"@ + "__main__."@ + name + "'>"@ =~= "<class '"@ + ("__main__."@ + name) + "'>"@);
            if let Some(m) = x.module_name {
                let module = name_text(s.tables, m);
                assert("<class '"@ + (module + "."@) + name + "'>"@ =~= "<class '"@ + (module + "."@ + name) + "'>"@);
            }
        },
        HeapData::Exception(x) => {
            let name = x.exc_type.name();
            reveal_strlit("(");
            reveal_strlit(")");
            reveal_strlit("()");
            assert(name + "("@ + Seq::<char>::empty() + ")"@ =~= name + "()"@);
        },
        _ => {},
    }
}

} // verus!
