//! What kind of value a payload is, how large it is, and whether it counts as true.

use crate::asyncio::{CallId, Coroutine, GatherFuture, GatherItem};
use crate::exceptions::SimpleException;
use crate::heap_data::{HeapData, HeapDataMut, HeapDataRef};
use crate::resource::{add_capped, capped_product, capped_sum, mul_capped};
use crate::text::byte_len;
use crate::types::Type;
use crate::types::long_int::{LongInt, bit_length, magnitude};
use crate::types::mappings::{Dataclass, Dict, DictEntry, FrozenSet, PySet};
use crate::types::module::Module;
use crate::types::namedtuple_factory::NamedTupleFactory;
use crate::types::scalars::{Class, MontyIter, Path, Range, ReMatch, RePattern, Slice};
use crate::types::sequences::{Bytes, List, NamedTuple, Str, Tuple};
use crate::value::{EitherStr, HeapId, Value};
use core::mem::size_of;
use vstd::prelude::*;
use vstd::utf8::encode_utf8;

verus! {

/// How many bytes a text takes.
pub open spec fn text_bytes(t: Seq<char>) -> nat {
    encode_utf8(t).len()
}

/// How many bytes a name takes beside its tag.
pub open spec fn name_size(s: EitherStr) -> nat {
    match s {
        EitherStr::Interned(_) => 0,
        EitherStr::Heap(s) => text_bytes(s@),
    }
}

/// How many bytes some names take beside their tags.
pub open spec fn names_size(names: Seq<EitherStr>) -> nat
    decreases names.len(),
{
    if names.len() == 0 {
        0
    } else {
        capped_sum(names_size(names.drop_last()), name_size(names.last()))
    }
}

/// How many bytes `len` values take.
pub open spec fn values_size(len: nat) -> nat {
    capped_product(len, vstd::layout::size_of::<Value>())
}

/// How many bytes the entries of a dictionary take.
pub open spec fn dict_size(d: Dict) -> nat {
    capped_sum(
        vstd::layout::size_of::<Dict>(),
        capped_product(d.entries@.len(), vstd::layout::size_of::<DictEntry>()),
    )
}

/// About how many bytes a payload takes.
pub open spec fn estimated_size(data: HeapData) -> nat {
    match data {
        HeapData::Str(s) => capped_sum(vstd::layout::size_of::<Str>(), text_bytes(s.value@)),
        HeapData::Bytes(b) => capped_sum(vstd::layout::size_of::<Bytes>(), b.value@.len()),
        HeapData::List(l) => capped_sum(vstd::layout::size_of::<List>(), values_size(l.items@.len())),
        HeapData::Tuple(t) => capped_sum(vstd::layout::size_of::<Tuple>(), values_size(t@.len())),
        HeapData::NamedTuple(nt) => capped_sum(
            capped_sum(
                capped_sum(vstd::layout::size_of::<NamedTuple>(), name_size(nt.name)),
                names_size(nt.field_names@),
            ),
            values_size(nt.items@.len()),
        ),
        HeapData::NamedTupleFactory(f) => capped_sum(
            capped_sum(
                capped_sum(
                    capped_sum(vstd::layout::size_of::<NamedTupleFactory>(), name_size(f.typename)),
                    names_size(f.field_names@),
                ),
                values_size(f.defaults@.len()),
            ),
            match f.module_name {
                Some(m) => name_size(m),
                None => 0,
            },
        ),
        HeapData::Dict(d) => dict_size(d),
        HeapData::PySet(s) => capped_sum(vstd::layout::size_of::<PySet>(), values_size(s.storage.items@.len())),
        HeapData::FrozenSet(s) => capped_sum(
            vstd::layout::size_of::<FrozenSet>(),
            values_size(s.storage.items@.len()),
        ),
        HeapData::Closure(_) => 0,
        HeapData::FunctionDefaults(_) => 0,
        HeapData::Cell(_) => capped_sum(vstd::layout::size_of::<Value>(), vstd::layout::size_of::<Value>()),
        HeapData::Range(_) => vstd::layout::size_of::<Range>(),
        HeapData::Slice(_) => vstd::layout::size_of::<Slice>(),
        HeapData::Exception(e) => capped_sum(
            vstd::layout::size_of::<SimpleException>(),
            match e.arg {
                Some(s) => text_bytes(s@),
                None => 0,
            },
        ),
        HeapData::Dataclass(dc) => capped_sum(
            capped_sum(vstd::layout::size_of::<Dataclass>(), name_size(dc.name)),
            dict_size(dc.attrs),
        ),
        HeapData::Iter(_) => vstd::layout::size_of::<MontyIter>(),
        HeapData::LongInt(li) => capped_sum(
            vstd::layout::size_of::<LongInt>(),
            capped_sum(bit_length(magnitude(li@)) / 8, 1),
        ),
        HeapData::Class(c) => capped_sum(vstd::layout::size_of::<Class>(), name_size(c.name)),
        HeapData::Module(m) => capped_sum(vstd::layout::size_of::<Module>(), dict_size(m.attrs)),
        HeapData::Coroutine(c) => capped_sum(
            capped_sum(vstd::layout::size_of::<Coroutine>(), values_size(c.namespace@.len())),
            capped_product(c.frame_cells@.len(), vstd::layout::size_of::<HeapId>()),
        ),
        HeapData::GatherFuture(g) => capped_sum(
            capped_sum(
                capped_sum(
                    vstd::layout::size_of::<GatherFuture>(),
                    capped_product(g.items@.len(), vstd::layout::size_of::<GatherItem>()),
                ),
                capped_product(g.results@.len(), vstd::layout::size_of::<Option<Value>>()),
            ),
            capped_product(g.pending_calls@.len(), vstd::layout::size_of::<CallId>()),
        ),
        HeapData::Path(p) => capped_sum(vstd::layout::size_of::<Path>(), text_bytes(p.path@)),
        HeapData::RePattern(p) => capped_sum(vstd::layout::size_of::<RePattern>(), text_bytes(p.pattern@)),
        HeapData::ReMatch(m) => capped_sum(
            capped_sum(vstd::layout::size_of::<ReMatch>(), text_bytes(m.string@)),
            capped_product(m.spans@.len(), vstd::layout::size_of::<Option<(usize, usize)>>()),
        ),
        HeapData::ExtFunction(s) => capped_sum(vstd::layout::size_of::<String>(), text_bytes(s@)),
    }
}

impl EitherStr {
    /// Returns how many bytes the name takes beside its tag.
    pub fn py_estimate_size(&self) -> (r: usize)
        ensures
            r == name_size(*self),
    {
        match self {
            EitherStr::Interned(_) => 0,
            EitherStr::Heap(s) => byte_len(s.as_str()),
        }
    }
}

/// Returns how many bytes some names take beside their tags.
fn sum_names(names: &Vec<EitherStr>) -> (r: usize)
    ensures
        r == names_size(names@),
{
    let mut total: usize = 0;
    let mut i: usize = 0;
    while i < names.len()
        invariant
            i <= names@.len(),
            total == names_size(names@.take(i as int)),
        decreases names.len() - i,
    {
        proof {
            assert(names@.take(i + 1).drop_last() =~= names@.take(i as int));
        }
        total = add_capped(total, names[i].py_estimate_size());
        i = i + 1;
    }
    proof {
        assert(names@.take(names@.len() as int) =~= names@);
    }
    total
}

/// Returns how many bytes the entries of a dictionary take.
fn size_of_dict(d: &Dict) -> (r: usize)
    ensures
        r == dict_size(*d),
{
    add_capped(size_of::<Dict>(), mul_capped(d.entries.len(), size_of::<DictEntry>()))
}

/// Returns how many bytes `len` values take.
pub fn size_of_values(len: usize) -> (r: usize)
    ensures
        r == values_size(len as nat),
{
    mul_capped(len, size_of::<Value>())
}

/// How many numbers a range holds.
pub open spec fn range_len(r: Range) -> nat {
    if r.step > 0 && r.start < r.stop {
        ((r.stop - r.start - 1) / (r.step as int) + 1) as nat
    } else if r.step < 0 && r.stop < r.start {
        ((r.start - r.stop - 1) / (-(r.step as int)) + 1) as nat
    } else {
        0
    }
}

impl Range {
    /// Returns how many numbers the range holds, or the largest `usize` where
    /// they are more than that.
    pub fn len(&self) -> (r: usize)
        ensures
            r == if range_len(*self) > usize::MAX {
                usize::MAX as nat
            } else {
                range_len(*self)
            },
    {
        let start: i128 = self.start as i128;
        let stop: i128 = self.stop as i128;
        let step: i128 = self.step as i128;
        let n: i128 = if step > 0 && start < stop {
            proof {
                let d: int = stop - start - 1;
                vstd::arithmetic::div_mod::lemma_div_is_ordered_by_denominator(d, 1, step as int);
                vstd::arithmetic::div_mod::lemma_div_pos_is_pos(d, step as int);
            }
            (stop - start - 1) / step + 1
        } else if step < 0 && stop < start {
            proof {
                let d: int = start - stop - 1;
                vstd::arithmetic::div_mod::lemma_div_is_ordered_by_denominator(d, 1, -(step as int));
                vstd::arithmetic::div_mod::lemma_div_pos_is_pos(d, -(step as int));
            }
            (start - stop - 1) / (-step) + 1
        } else {
            0
        };
        if n > usize::MAX as i128 {
            usize::MAX
        } else {
            n as usize
        }
    }
}

impl HeapData {
    /// The Python type of the payload.
    pub open spec fn spec_type(self) -> Type {
        match self {
            HeapData::Str(_) => Type::Str,
            HeapData::Bytes(_) => Type::Bytes,
            HeapData::List(_) => Type::List,
            HeapData::Tuple(_) => Type::Tuple,
            HeapData::NamedTuple(_) => Type::NamedTuple,
            HeapData::NamedTupleFactory(_) => Type::Type,
            HeapData::Dict(_) => Type::Dict,
            HeapData::PySet(_) => Type::PySet,
            HeapData::FrozenSet(_) => Type::FrozenSet,
            HeapData::Closure(_) => Type::Function,
            HeapData::FunctionDefaults(_) => Type::Function,
            HeapData::ExtFunction(_) => Type::Function,
            HeapData::Cell(_) => Type::Cell,
            HeapData::Range(_) => Type::Range,
            HeapData::Slice(_) => Type::Slice,
            HeapData::Exception(e) => Type::Exception(e.exc_type),
            HeapData::Dataclass(_) => Type::Dataclass,
            HeapData::Iter(_) => Type::Iterator,
            HeapData::LongInt(_) => Type::Int,
            HeapData::Class(_) => Type::Type,
            HeapData::Module(_) => Type::Module,
            HeapData::Coroutine(_) => Type::Coroutine,
            HeapData::GatherFuture(_) => Type::Coroutine,
            HeapData::Path(_) => Type::Path,
            HeapData::RePattern(_) => Type::RePattern,
            HeapData::ReMatch(_) => Type::ReMatch,
        }
    }

    /// What `len()` gives for the payload, if it has a length.
    pub open spec fn spec_len(self) -> Option<nat> {
        match self {
            HeapData::Str(s) => Some(s.value@.len()),
            HeapData::Bytes(b) => Some(b.value@.len()),
            HeapData::List(l) => Some(l.items@.len()),
            HeapData::Tuple(t) => Some(t@.len()),
            HeapData::NamedTuple(nt) => Some(nt.items@.len()),
            HeapData::Dict(d) => Some(d.entries@.len()),
            HeapData::PySet(s) => Some(s.storage.items@.len()),
            HeapData::FrozenSet(s) => Some(s.storage.items@.len()),
            HeapData::Range(r) => Some(
                if range_len(r) > usize::MAX {
                    usize::MAX as nat
                } else {
                    range_len(r)
                },
            ),
            // other types don't have length
            _ => None,
        }
    }

    /// Does the payload count as true?
    ///
    /// Empty collections and zero are false; all that has no length and is no
    /// number is true.
    pub open spec fn spec_bool(self) -> bool {
        match self {
            HeapData::LongInt(li) => li@ != 0,
            _ => self.spec_len() != Some(0nat),
        }
    }

    /// Returns the Python type of the payload.
    pub fn py_type(&self) -> (r: Type)
        ensures
            r == self.spec_type(),
    {
        self.as_ref().py_type()
    }

    /// Returns about how many bytes the payload takes.
    pub fn py_estimate_size(&self) -> (r: usize)
        ensures
            r == estimated_size(*self),
    {
        self.as_ref().py_estimate_size()
    }

    /// Returns what `len()` gives for the payload, if it has a length.
    pub fn py_len(&self) -> (r: Option<usize>)
        ensures
            r is Some <==> self.spec_len() is Some,
            r matches Some(n) ==> n == self.spec_len()->0,
    {
        self.as_ref().py_len()
    }

    /// Returns whether the payload counts as true.
    pub fn py_bool(&self) -> (r: bool)
        ensures
            r == self.spec_bool(),
    {
        self.as_ref().py_bool()
    }
}

impl<'a> HeapDataMut<'a> {
    /// Returns the Python type of the payload.
    pub fn py_type(&self) -> (r: Type)
        ensures
            r == self.data().spec_type(),
    {
        self.as_ref().py_type()
    }

    /// Returns about how many bytes the payload takes.
    pub fn py_estimate_size(&self) -> (r: usize)
        ensures
            r == estimated_size(self.data()),
    {
        self.as_ref().py_estimate_size()
    }

    /// Returns what `len()` gives for the payload, if it has a length.
    pub fn py_len(&self) -> (r: Option<usize>)
        ensures
            r is Some <==> self.data().spec_len() is Some,
            r matches Some(n) ==> n == self.data().spec_len()->0,
    {
        self.as_ref().py_len()
    }

    /// Returns whether the payload counts as true.
    pub fn py_bool(&self) -> (r: bool)
        ensures
            r == self.data().spec_bool(),
    {
        self.as_ref().py_bool()
    }
}

impl<'a> HeapDataRef<'a> {
    /// Returns the Python type of the payload.
    pub fn py_type(self) -> (r: Type)
        ensures
            r == self.data().spec_type(),
    {
        match self {
            HeapDataRef::Str(_) => Type::Str,
            HeapDataRef::Bytes(_) => Type::Bytes,
            HeapDataRef::List(_) => Type::List,
            HeapDataRef::Tuple(_) => Type::Tuple,
            HeapDataRef::NamedTuple(_) => Type::NamedTuple,
            HeapDataRef::NamedTupleFactory(_) => Type::Type,
            HeapDataRef::Dict(_) => Type::Dict,
            HeapDataRef::PySet(_) => Type::PySet,
            HeapDataRef::FrozenSet(_) => Type::FrozenSet,
            HeapDataRef::Closure(_) | HeapDataRef::FunctionDefaults(_) | HeapDataRef::ExtFunction(_) => Type::Function,
            HeapDataRef::Cell(_) => Type::Cell,
            HeapDataRef::Range(_) => Type::Range,
            HeapDataRef::Slice(_) => Type::Slice,
            HeapDataRef::Exception(e) => Type::Exception(e.exc_type),
            HeapDataRef::Dataclass(_) => Type::Dataclass,
            HeapDataRef::Iter(_) => Type::Iterator,
            // LongInt is still `int` in Python - it's an implementation detail
            HeapDataRef::LongInt(_) => Type::Int,
            HeapDataRef::Class(_) => Type::Type,
            HeapDataRef::Module(_) => Type::Module,
            HeapDataRef::Coroutine(_) | HeapDataRef::GatherFuture(_) => Type::Coroutine,
            HeapDataRef::Path(_) => Type::Path,
            HeapDataRef::RePattern(_) => Type::RePattern,
            HeapDataRef::ReMatch(_) => Type::ReMatch,
        }
    }

    /// Returns about how many bytes the payload takes.
    pub fn py_estimate_size(self) -> (r: usize)
        ensures
            r == estimated_size(self.data()),
    {
        match self {
            HeapDataRef::Str(s) => add_capped(size_of::<Str>(), byte_len(s.as_str())),
            HeapDataRef::Bytes(b) => add_capped(size_of::<Bytes>(), b.value.len()),
            HeapDataRef::List(l) => add_capped(size_of::<List>(), size_of_values(l.items.len())),
            HeapDataRef::Tuple(t) => add_capped(size_of::<Tuple>(), size_of_values(t.as_slice().len())),
            HeapDataRef::NamedTuple(nt) => add_capped(
                add_capped(
                    add_capped(size_of::<NamedTuple>(), nt.name.py_estimate_size()),
                    sum_names(&nt.field_names),
                ),
                size_of_values(nt.items.len()),
            ),
            HeapDataRef::NamedTupleFactory(f) => {
                let module: usize = match &f.module_name {
                    Some(m) => m.py_estimate_size(),
                    None => 0,
                };
                add_capped(
                    add_capped(
                        add_capped(
                            add_capped(size_of::<NamedTupleFactory>(), f.typename.py_estimate_size()),
                            sum_names(&f.field_names),
                        ),
                        size_of_values(f.defaults.len()),
                    ),
                    module,
                )
            },
            HeapDataRef::Dict(d) => size_of_dict(d),
            HeapDataRef::PySet(s) => add_capped(size_of::<PySet>(), size_of_values(s.storage.items.len())),
            HeapDataRef::FrozenSet(s) => add_capped(size_of::<FrozenSet>(), size_of_values(s.storage.items.len())),
            HeapDataRef::Closure(_) | HeapDataRef::FunctionDefaults(_) => 0,
            HeapDataRef::Cell(_) => add_capped(size_of::<Value>(), size_of::<Value>()),
            HeapDataRef::Range(_) => size_of::<Range>(),
            HeapDataRef::Slice(_) => size_of::<Slice>(),
            HeapDataRef::Exception(e) => {
                let message: usize = match &e.arg {
                    Some(s) => byte_len(s.as_str()),
                    None => 0,
                };
                add_capped(size_of::<SimpleException>(), message)
            },
            HeapDataRef::Dataclass(dc) => add_capped(
                add_capped(size_of::<Dataclass>(), dc.name.py_estimate_size()),
                size_of_dict(&dc.attrs),
            ),
            HeapDataRef::Iter(_) => size_of::<MontyIter>(),
            HeapDataRef::LongInt(li) => {
                let bytes: u64 = li.bits() / 8;
                let whole: usize = if bytes > usize::MAX as u64 { usize::MAX } else { bytes as usize };
                add_capped(size_of::<LongInt>(), add_capped(whole, 1))
            },
            HeapDataRef::Class(c) => add_capped(size_of::<Class>(), c.name.py_estimate_size()),
            HeapDataRef::Module(m) => add_capped(size_of::<Module>(), size_of_dict(&m.attrs)),
            HeapDataRef::Coroutine(c) => add_capped(
                add_capped(size_of::<Coroutine>(), size_of_values(c.namespace.len())),
                mul_capped(c.frame_cells.len(), size_of::<HeapId>()),
            ),
            HeapDataRef::GatherFuture(g) => add_capped(
                add_capped(
                    add_capped(size_of::<GatherFuture>(), mul_capped(g.items.len(), size_of::<GatherItem>())),
                    mul_capped(g.results.len(), size_of::<Option<Value>>()),
                ),
                mul_capped(g.pending_calls.len(), size_of::<CallId>()),
            ),
            HeapDataRef::Path(p) => add_capped(size_of::<Path>(), byte_len(p.path.as_str())),
            HeapDataRef::RePattern(p) => add_capped(size_of::<RePattern>(), byte_len(p.pattern.as_str())),
            HeapDataRef::ReMatch(m) => add_capped(
                add_capped(size_of::<ReMatch>(), byte_len(m.string.as_str())),
                mul_capped(m.spans.len(), size_of::<Option<(usize, usize)>>()),
            ),
            HeapDataRef::ExtFunction(s) => add_capped(size_of::<String>(), byte_len(s.as_str())),
        }
    }

    /// Returns what `len()` gives for the payload, if it has a length.
    pub fn py_len(self) -> (r: Option<usize>)
        ensures
            r is Some <==> self.data().spec_len() is Some,
            r matches Some(n) ==> n == self.data().spec_len()->0,
    {
        match self {
            HeapDataRef::Str(s) => Some(s.as_str().unicode_len()),
            HeapDataRef::Bytes(b) => Some(b.value.len()),
            HeapDataRef::List(l) => Some(l.items.len()),
            HeapDataRef::Tuple(t) => Some(t.as_slice().len()),
            HeapDataRef::NamedTuple(nt) => Some(nt.items.len()),
            HeapDataRef::Dict(d) => Some(d.entries.len()),
            HeapDataRef::PySet(s) => Some(s.storage.items.len()),
            HeapDataRef::FrozenSet(s) => Some(s.storage.items.len()),
            HeapDataRef::Range(r) => Some(r.len()),
            // other types don't have length
            _ => None,
        }
    }

    /// Returns whether the payload counts as true.
    pub fn py_bool(self) -> (r: bool)
        ensures
            r == self.data().spec_bool(),
    {
        match self {
            HeapDataRef::LongInt(li) => !li.is_zero(),
            _ => match self.py_len() {
                Some(n) => n != 0,
                None => true,
            },
        }
    }
}

} // verus!
