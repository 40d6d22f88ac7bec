//! What lengths, truth, sizes and iteration say of what a value holds.

use crate::asyncio::{CallId, Coroutine, GatherFuture, GatherItem};
use crate::builtins::Builtins;
use crate::equality::{Scene, keys};
use crate::exceptions::SimpleException;
use crate::heap::HeapModel;
use crate::heap_data::HeapData;
use crate::heap_model::data_at;
use crate::intern::{StringId, id_text, ids_name_one_text, names};
use crate::iteration::{ItemView, collects, is_item, payload_items};
use crate::measure::{estimated_size, name_size, names_size, range_len, text_bytes};
use crate::resource::ResourceTracker;
use crate::types::Type;
use crate::types::long_int::{LongInt, bit_length, magnitude};
use crate::types::mappings::{Dataclass, Dict, DictEntry, FrozenSet, PySet};
use crate::types::module::Module;
use crate::types::namedtuple_factory::NamedTupleFactory;
use crate::types::scalars::{Class, MontyIter, Path, Range, ReMatch, RePattern, Slice};
use crate::types::sequences::{Bytes, List, NamedTuple, Str, Tuple};
use crate::value::{EitherStr, HeapId, Value};
use vstd::prelude::*;

verus! {

/// A range holds the numbers from its start on, step by step, that lie before its stop, and
/// no others.
pub proof fn ranges_end_before_their_stop(r: Range, i: int)
    ensures
        r.step > 0 && i >= 0 ==> (i < range_len(r) <==> r.start + i * r.step < r.stop),
        r.step < 0 && i >= 0 ==> (i < range_len(r) <==> r.start + i * r.step > r.stop),
        r.step == 0 ==> range_len(r) == 0,
{
    if r.step > 0 && i >= 0 {
        let (d, k) = (r.stop - r.start, r.step as int);
        if d > 0 {
            lemma_steps(d, k, i);
        } else {
            assert(i * k >= 0) by (nonlinear_arith)
                requires
                    i >= 0,
                    k > 0,
            ;
        }
    } else if r.step < 0 && i >= 0 {
        let (d, k) = (r.start - r.stop, -(r.step as int));
        assert(i * r.step == -(i * k)) by (nonlinear_arith)
            requires
                k == -(r.step as int),
        ;
        if d > 0 {
            lemma_steps(d, k, i);
        } else {
            assert(i * k >= 0) by (nonlinear_arith)
                requires
                    i >= 0,
                    k > 0,
            ;
        }
    }
}

/// The steps of length `k` from zero that lie before `d`.
proof fn lemma_steps(d: int, k: int, i: int)
    requires
        d > 0,
        k > 0,
        i >= 0,
    ensures
        i < (d - 1) / k + 1 <==> i * k < d,
        (d - 1) / k >= 0,
{
    let q = (d - 1) / k;
    vstd::arithmetic::div_mod::lemma_fundamental_div_mod(d - 1, k);
    let m = (d - 1) % k;
    assert(0 <= m < k);
    assert(d - 1 == k * q + m);
    assert(q >= 0) by (nonlinear_arith)
        requires
            d - 1 == k * q + m,
            d - 1 >= 0,
            0 <= m < k,
    ;
    if i <= q {
        assert(i * k <= k * q) by (nonlinear_arith)
            requires
                i <= q,
                k > 0,
        ;
    } else {
        assert(i * k >= k * q + k) by (nonlinear_arith)
            requires
                i >= q + 1,
                k > 0,
        ;
    }
}

/// Iterating over a payload gives what it stores, in order: items, keys of a dictionary,
/// characters, bytes as numbers, and the numbers of a range.
pub proof fn iteration_gives_what_is_stored(data: HeapData, items: Seq<ItemView>, i: int)
    requires
        payload_items(data) == Some(items),
        0 <= i,
    ensures
        match data {
            HeapData::Str(x) => items.len() == x.value@.len() && (i < items.len() ==> items[i] == ItemView::Text(
                seq![x.value@[i]],
            )),
            HeapData::Bytes(x) => items.len() == x.value@.len() && (i < items.len() ==> items[i] == ItemView::Number(
                x.value@[i] as int,
            )),
            HeapData::List(x) => items.len() == x.items@.len() && (i < items.len() ==> items[i] == ItemView::Stored(
                x.items@[i],
            )),
            HeapData::Tuple(x) => items.len() == x@.len() && (i < items.len() ==> items[i] == ItemView::Stored(x@[i])),
            HeapData::NamedTuple(x) => items.len() == x.items@.len() && (i < items.len() ==> items[i]
                == ItemView::Stored(x.items@[i])),
            HeapData::Dict(x) => items.len() == x.entries@.len() && (i < items.len() ==> items[i] == ItemView::Stored(
                x.entries@[i].key,
            )),
            HeapData::PySet(x) => items.len() == x.storage.items@.len() && (i < items.len() ==> items[i]
                == ItemView::Stored(x.storage.items@[i])),
            HeapData::FrozenSet(x) => items.len() == x.storage.items@.len() && (i < items.len() ==> items[i]
                == ItemView::Stored(x.storage.items@[i])),
            HeapData::Range(x) => {
                &&& x.step > 0 ==> (i < items.len() <==> x.start + i * x.step < x.stop)
                &&& x.step < 0 ==> (i < items.len() <==> x.start + i * x.step > x.stop)
                &&& x.step == 0 ==> items.len() == 0
                &&& i < items.len() ==> items[i] == ItemView::Number(x.start + i * x.step)
            },
            _ => false,
        },
{
    match data {
        HeapData::Str(x) => if i < items.len() {
            assert(x.value@.subrange(i, i + 1) =~= seq![x.value@[i]]);
        },
        HeapData::Range(x) => ranges_end_before_their_stop(x, i),
        _ => {},
    }
}

/// An iterator gives the items of what it runs over, but for those that it has given
/// already.
pub proof fn iterators_go_on_where_they_stand<T: ResourceTracker>(s: Scene<T>, id: HeapId, it: MontyIter, i: int)
    requires
        data_at(s.entries, id) == HeapData::Iter(it),
        it.value matches Value::Ref(of) ==> !(data_at(s.entries, of) is Iter),
        0 <= i,
    ensures
        s.items(Value::Ref(id)) is Some <==> s.items(it.value) is Some,
        s.items(Value::Ref(id)) matches Some(rest) ==> (s.items(it.value) matches Some(all) && {
            &&& i < rest.len() <==> i + it.index < all.len()
            &&& i < rest.len() ==> rest[i] == all[i + it.index]
        }),
{
}

/// A payload has a length just if its items can be gone over again and again, and it is how
/// many there are. Of a range that is counted as far as a `usize` goes.
pub proof fn lengths_count_the_items(data: HeapData)
    ensures
        data.spec_len() is Some <==> payload_items(data) is Some,
        payload_items(data) matches Some(items) ==> data.spec_len() == Some(
            if data is Range && items.len() > usize::MAX {
                usize::MAX as nat
            } else {
                items.len()
            },
        ),
{
    if let HeapData::Dict(d) = data {
        assert(keys(d.entries@).len() == d.entries@.len());
    }
}

/// Zero, empty texts and bytes, empty collections and `None` are false, and everything else
/// is true.
pub proof fn truth_is_not_being_empty<T: ResourceTracker>(s: Scene<T>, v: Value)
    ensures
        s.number(v) matches Some(n) ==> s.truth(v) == (n != 0),
        s.text(v) matches Some(t) ==> s.truth(v) == (t.len() > 0),
        s.bytes(v) matches Some(b) ==> s.truth(v) == (b.len() > 0),
        v matches Value::Ref(id) ==> (payload_items(data_at(s.entries, id)) matches Some(items) ==> s.truth(v) == (
        items.len() > 0)),
        v is PyNone || v is Undefined ==> !s.truth(v),
        !s.truth(v) ==> {
            ||| v is PyNone
            ||| v is Undefined
            ||| s.number(v) == Some(0int)
            ||| s.all_items(v) matches Some(items) && items.len() == 0
        },
{
    if let Value::Ref(id) = v {
        let data = data_at(s.entries, id);
        lengths_count_the_items(data);
    }
}

/// What is collected of some items is these items: values themselves, numbers as integers,
/// and texts as strings.
pub proof fn collected_values_are_the_items<T: ResourceTracker>(
    s: Scene<T>,
    before: HeapModel<T>,
    after: HeapModel<T>,
    items: Seq<ItemView>,
    vs: Seq<Value>,
    i: int,
)
    requires
        s.entries == after.entries,
        collects(before, after, items, Ok(vs)),
        0 <= i < items.len(),
        items[i] matches ItemView::Number(n) ==> i64::MIN <= n <= i64::MAX,
        items[i] matches ItemView::Text(t) ==> t.len() == 1,
    ensures
        vs.len() == items.len(),
        match items[i] {
            ItemView::Stored(v) => vs[i] == v,
            ItemView::Number(n) => s.number(vs[i]) == Some(n),
            ItemView::Text(t) => s.text(vs[i]) == Some(t),
        },
{
    assert(is_item(items[i], after.entries, vs[i]));
    if let ItemView::Text(t) = items[i] {
        if (t[0] as u32) < 128 {
            let id = StringId(t[0] as u32);
            assert(names(s.tables.strings, id, t));
            ids_name_one_text(s.tables.strings, id, t, id_text(s.tables.strings, id));
        }
    }
}

/// How many bytes the texts of some names take.
pub open spec fn bytes_in_names(names: Seq<EitherStr>) -> nat
    decreases names.len(),
{
    if names.len() == 0 {
        0
    } else {
        bytes_in_names(names.drop_first()) + match names.first() {
            EitherStr::Heap(t) => text_bytes(t@),
            EitherStr::Interned(_) => 0,
        }
    }
}

/// How many bytes a payload takes: those of its own, and those of what it stores.
pub open spec fn bytes_taken(data: HeapData) -> nat {
    let value = vstd::layout::size_of::<Value>();
    let entry = vstd::layout::size_of::<DictEntry>();
    match data {
        HeapData::Str(x) => vstd::layout::size_of::<Str>() + text_bytes(x.value@),
        HeapData::Bytes(x) => vstd::layout::size_of::<Bytes>() + x.value@.len(),
        HeapData::List(x) => vstd::layout::size_of::<List>() + x.items@.len() * value,
        HeapData::Tuple(x) => vstd::layout::size_of::<Tuple>() + x@.len() * value,
        HeapData::NamedTuple(x) => vstd::layout::size_of::<NamedTuple>() + bytes_in_names(seq![x.name]) + bytes_in_names(x.field_names@)
            + x.items@.len() * value,
        HeapData::NamedTupleFactory(x) => vstd::layout::size_of::<NamedTupleFactory>() + bytes_in_names(seq![x.typename]) + bytes_in_names(
            x.field_names@,
        ) + x.defaults@.len() * value + bytes_in_names(
            match x.module_name {
                Some(m) => seq![m],
                None => Seq::empty(),
            },
        ),
        HeapData::Dict(x) => vstd::layout::size_of::<Dict>() + x.entries@.len() * entry,
        HeapData::PySet(x) => vstd::layout::size_of::<PySet>() + x.storage.items@.len() * value,
        HeapData::FrozenSet(x) => vstd::layout::size_of::<FrozenSet>() + x.storage.items@.len() * value,
        HeapData::Closure(_) => 0,
        HeapData::FunctionDefaults(_) => 0,
        HeapData::Cell(_) => 2 * value,
        HeapData::Range(_) => vstd::layout::size_of::<Range>(),
        HeapData::Slice(_) => vstd::layout::size_of::<Slice>(),
        HeapData::Exception(x) => vstd::layout::size_of::<SimpleException>() + match x.arg {
            Some(t) => text_bytes(t@),
            None => 0,
        },
        HeapData::Dataclass(x) => vstd::layout::size_of::<Dataclass>() + bytes_in_names(seq![x.name]) + vstd::layout::size_of::<Dict>() + x.attrs.entries@.len()
            * entry,
        HeapData::Iter(_) => vstd::layout::size_of::<MontyIter>(),
        HeapData::LongInt(x) => vstd::layout::size_of::<LongInt>() + bit_length(magnitude(x@)) / 8 + 1,
        HeapData::Class(x) => vstd::layout::size_of::<Class>() + bytes_in_names(seq![x.name]),
        HeapData::Module(x) => vstd::layout::size_of::<Module>() + vstd::layout::size_of::<Dict>() + x.attrs.entries@.len() * entry,
        HeapData::Coroutine(x) => vstd::layout::size_of::<Coroutine>() + x.namespace@.len() * value + x.frame_cells@.len() * vstd::layout::size_of::<HeapId>(),
        HeapData::GatherFuture(x) => vstd::layout::size_of::<GatherFuture>() + x.items@.len() * vstd::layout::size_of::<GatherItem>() + x.results@.len() * vstd::layout::size_of::<Option<Value>>() + x.pending_calls@.len() * vstd::layout::size_of::<CallId>(),
        HeapData::Path(x) => vstd::layout::size_of::<Path>() + text_bytes(x.path@),
        HeapData::RePattern(x) => vstd::layout::size_of::<RePattern>() + text_bytes(x.pattern@),
        HeapData::ReMatch(x) => vstd::layout::size_of::<ReMatch>() + text_bytes(x.string@) + x.spans@.len() * vstd::layout::size_of::<Option<(usize, usize)>>(),
        HeapData::ExtFunction(x) => vstd::layout::size_of::<String>() + text_bytes(x@),
    }
}

/// `n`, or the largest `usize` where it does not fit.
pub open spec fn at_most_max(n: nat) -> nat {
    if n > usize::MAX { usize::MAX as nat } else { n }
}

proof fn lemma_names_bytes(names: Seq<EitherStr>)
    ensures
        names_size(names) == at_most_max(bytes_in_names(names)),
        names.len() > 0 ==> bytes_in_names(names) == bytes_in_names(names.drop_last()) + name_size(names.last()),
    decreases names.len(),
{
    if names.len() > 0 {
        lemma_names_bytes(names.drop_last());
        if names.len() == 1 {
            assert(names.drop_first() =~= Seq::<EitherStr>::empty());
            assert(names.drop_last() =~= Seq::<EitherStr>::empty());
        } else {
            lemma_names_bytes(names.drop_first());
            assert(names.drop_first().drop_last() =~= names.drop_last().drop_first());
            assert(names.drop_first().last() == names.last());
            assert(names.drop_last().first() == names.first());
        }
    }
}

proof fn lemma_name_bytes(name: EitherStr)
    ensures
        bytes_in_names(seq![name]) == name_size(name),
{
    lemma_names_bytes(seq![name]);
    assert(seq![name].drop_last() =~= Seq::<EitherStr>::empty());
}

/// The size that is charged for a payload counts all that it stores, as far as a `usize`
/// goes.
pub proof fn sizes_count_what_is_stored(data: HeapData)
    ensures
        bytes_taken(data) <= usize::MAX ==> estimated_size(data) == bytes_taken(data),
        bytes_taken(data) > usize::MAX ==> estimated_size(data) >= usize::MAX,
{
    match data {
        HeapData::NamedTuple(x) => {
            lemma_names_bytes(x.field_names@);
            lemma_name_bytes(x.name);
        },
        HeapData::NamedTupleFactory(x) => {
            lemma_names_bytes(x.field_names@);
            lemma_name_bytes(x.typename);
            if let Some(m) = x.module_name {
                lemma_name_bytes(m);
            }
        },
        HeapData::Dataclass(x) => lemma_name_bytes(x.name),
        HeapData::Class(x) => lemma_name_bytes(x.name),
        _ => {},
    }
}

/// The type of each kind of payload goes by its own name, but functions share one, and so
/// do classes, and what can be awaited.
pub proof fn types_go_by_their_names(data: HeapData)
    ensures
        data.spec_type().name() == match data {
            HeapData::Str(_) => "str"@,
            HeapData::Bytes(_) => "bytes"@,
            HeapData::List(_) => "list"@,
            HeapData::Tuple(_) => "tuple"@,
            HeapData::NamedTuple(_) => "namedtuple"@,
            HeapData::NamedTupleFactory(_) | HeapData::Class(_) => "type"@,
            HeapData::Dict(_) => "dict"@,
            HeapData::PySet(_) => "set"@,
            HeapData::FrozenSet(_) => "frozenset"@,
            HeapData::Closure(_) | HeapData::FunctionDefaults(_) | HeapData::ExtFunction(_) => "function"@,
            HeapData::Cell(_) => "cell"@,
            HeapData::Range(_) => "range"@,
            HeapData::Slice(_) => "slice"@,
            HeapData::Exception(e) => e.exc_type.name(),
            HeapData::Dataclass(_) => "dataclass"@,
            HeapData::Iter(_) => "iterator"@,
            HeapData::LongInt(_) => "int"@,
            HeapData::Module(_) => "module"@,
            HeapData::Coroutine(_) | HeapData::GatherFuture(_) => "coroutine"@,
            HeapData::Path(_) => "PosixPath"@,
            HeapData::RePattern(_) => "re.Pattern"@,
            HeapData::ReMatch(_) => "re.Match"@,
        },
{
}

/// A value of a number, a text or bytes has the same type wherever it is stored.
pub proof fn types_do_not_depend_on_where_values_are<T: ResourceTracker>(s: Scene<T>, v: Value)
    ensures
        s.text(v) is Some <==> s.type_of(v) == Type::Str,
        s.bytes(v) is Some <==> s.type_of(v) == Type::Bytes,
        s.number(v) is Some && !(v is Bool) <==> s.type_of(v) == Type::Int,
        v is Bool <==> s.type_of(v) == Type::Bool,
        v is PyNone || v is Undefined <==> s.type_of(v) == Type::NoneType,
{
}

/// Values that are no references go by the names of their types too.
pub proof fn immediate_types_go_by_their_names<T: ResourceTracker>(s: Scene<T>, v: Value)
    requires
        !(v is Ref),
    ensures
        s.type_of(v).name() == match v {
            Value::Bool(_) => "bool"@,
            Value::Int(_) => "int"@,
            Value::InternString(_) => "str"@,
            Value::InternBytes(_) => "bytes"@,
            Value::Builtin(Builtins::Function(_)) | Value::ModuleFunction(_) => "builtin_function_or_method"@,
            Value::Builtin(_) => "type"@,
            Value::ExtFunction(_) | Value::DefFunction(_) => "function"@,
            Value::Property(_) => "property"@,
            Value::Marker(_) => "_SpecialForm"@,
            _ => "NoneType"@,
        },
{
}

} // verus!
