//! Arithmetic on heap values: long integers, and the repetition of sequences.

use crate::exceptions::{ErrorView, RunError};
use crate::function::copy_vec;
use crate::growth::grown;
use crate::heap::{EMPTY_TUPLE_SLOT, Heap, HeapModel, allocation_balances, one_more};
use crate::heap_data::HeapData;
use crate::heap_model::{Entries, counted, covers, data_at, live, readable};
use crate::heap_ops::{
    all_live, bumped, lemma_bumped_by_nothing, lemma_bumped_nothing, lemma_bumped_push, lemma_bumped_trans,
};
use crate::measure::{size_of_values, text_bytes, values_size};
use crate::resource::{ResourceError, ResourceTracker, capped_product, check_mult_size, check_repeat_size, product_bytes};
use crate::text::byte_len;
use crate::types::long_int::{LongInt, bit_length, magnitude};
use crate::types::sequences::{Bytes, List, Str, Tuple};
use crate::value::{HeapId, Value, lemma_refs_concat, refs, tally};
use vstd::prelude::*;

verus! {

/// A sequence `n` times over.
pub open spec fn repeated<A>(s: Seq<A>, n: nat) -> Seq<A>
    decreases n,
{
    if n == 0 { Seq::empty() } else { repeated(s, (n - 1) as nat) + s }
}

/// Computes the number of significant bits in an `i64`.
///
/// Returns 0 for zero, otherwise returns the position of the highest set bit
/// plus one. Uses unsigned absolute value to handle negative numbers correctly.
pub fn i64_bits(value: i64) -> (r: u64)
    ensures
        r == bit_length(magnitude(value as int)),
{
    let mut rest: u64 = if value == i64::MIN {
        0x8000_0000_0000_0000
    } else if value < 0 {
        (-value) as u64
    } else {
        value as u64
    };
    let mut bits: u64 = 0;
    while rest > 0
        invariant
            bits + bit_length(rest as nat) == bit_length(magnitude(value as int)),
            bits <= u64::MAX - rest,
        decreases rest,
    {
        rest = rest / 2;
        bits = bits + 1;
    }
    bits
}

/// Converts an `i64` repeat count to `usize` for sequence repetition.
///
/// Returns 0 for negative values (Python treats negative repeat counts as 0).
/// Returns `OverflowError` if the value exceeds `usize::MAX`.
pub fn i64_to_repeat_count(n: i64) -> (r: Result<usize, RunError>)
    ensures
        match r {
            Ok(count) => count == (if n < 0 { 0 } else { n as int }),
            Err(e) => n > usize::MAX && e@ == ErrorView::OverflowRepeatCount,
        },
{
    if n <= 0 {
        Ok(0)
    } else if n as u64 > usize::MAX as u64 {
        Err(RunError::OverflowRepeatCount)
    } else {
        Ok(n as usize)
    }
}

/// Converts a `LongInt` repeat count to `usize` for sequence repetition.
///
/// Returns 0 for negative values (Python treats negative repeat counts as 0).
/// Returns `OverflowError` if the value exceeds `usize::MAX`.
pub fn longint_to_repeat_count(li: &LongInt) -> (r: Result<usize, RunError>)
    ensures
        match r {
            Ok(count) => count == (if li@ < 0 { 0 } else { li@ }),
            Err(e) => li@ > usize::MAX && e@ == ErrorView::OverflowRepeatCount,
        },
{
    if li.is_negative() {
        Ok(0)
    } else {
        match li.to_usize() {
            Some(count) => Ok(count),
            None => Err(RunError::OverflowRepeatCount),
        }
    }
}

/// Is `data` the long integer `n`?
pub open spec fn is_long(data: HeapData, n: int) -> bool {
    data matches HeapData::LongInt(li) && li@ == n
}

/// May turning the integer `n` into a value turn the heap into `after` and give `r`?
///
/// An integer that fits in 64 bits needs no heap.
pub open spec fn makes_int<T: ResourceTracker>(
    before: HeapModel<T>,
    after: HeapModel<T>,
    n: int,
    r: Result<Value, ResourceError>,
) -> bool {
    if i64::MIN <= n <= i64::MAX {
        r == Ok::<Value, ResourceError>(Value::Int(n as i64)) && after == before
    } else {
        exists|data: HeapData| is_long(data, n) && #[trigger] makes(before, after, data, r)
    }
}

/// May allocating `data` turn the heap into `after` and give the value `r`?
pub open spec fn makes<T: ResourceTracker>(
    before: HeapModel<T>,
    after: HeapModel<T>,
    data: HeapData,
    r: Result<Value, ResourceError>,
) -> bool {
    match r {
        Ok(Value::Ref(id)) => before.allocates(after, data, Ok(id)),
        Ok(_) => false,
        Err(e) => before.allocates(after, data, Err(e)),
    }
}

/// May allocating `data`, which takes over what `held` hold, turn the heap into `after`
/// and give the value `r`?
///
/// Where the tracker refuses, they are given up.
pub open spec fn makes_holding<T: ResourceTracker>(
    before: HeapModel<T>,
    after: HeapModel<T>,
    data: HeapData,
    held: Seq<Value>,
    r: Result<Value, ResourceError>,
) -> bool {
    match r {
        Ok(v) => makes(before, after, data, Ok(v)),
        Err(e) => exists|refused: HeapModel<T>| #[trigger]
            makes(before, refused, data, Err(e)) && refused.gave_up(after, refs(held)),
    }
}

/// Allocates a payload that takes over some values, or gives them up.
pub(crate) fn allocate_holding<T: ResourceTracker>(data: HeapData, held: &[Value], heap: &mut Heap<T>) -> (r: Result<
    Value,
    ResourceError,
>)
    requires
        old(heap)@.wf(),
        old(heap)@.entries.len() < usize::MAX,
        covers(old(heap)@.entries, refs(held@)),
    ensures
        final(heap)@.wf(),
        makes_holding(old(heap)@, final(heap)@, data, held@, r),
{
    let ghost d = data;
    match heap.allocate(data) {
        Ok(id) => Ok(Value::Ref(id)),
        Err(e) => {
            assert(makes(old(heap)@, heap@, d, Err(e)));
            heap.discard_all(held);
            Err(e)
        },
    }
}

/// The payload that a sequence repeated `n` times has.
pub open spec fn is_repeat(data: HeapData, result: HeapData, n: nat) -> bool {
    match data {
        HeapData::Str(s) => result matches HeapData::Str(t) && t.value@ == repeated(s.value@, n),
        HeapData::Bytes(b) => result matches HeapData::Bytes(c) && c.value@ == repeated(b.value@, n),
        HeapData::List(l) => result matches HeapData::List(m) && m.items@ == repeated(l.items@, n),
        HeapData::Tuple(t) => result matches HeapData::Tuple(u) && u@ == repeated(t@, n),
        _ => false,
    }
}

/// The references that a payload's items hold, if they are values.
pub open spec fn item_values(data: HeapData) -> Seq<Value> {
    match data {
        HeapData::List(l) => l.items@,
        HeapData::Tuple(t) => t@,
        _ => Seq::empty(),
    }
}

/// About how many bytes the items of a sequence take.
pub open spec fn items_size(data: HeapData) -> nat {
    match data {
        HeapData::Str(s) => text_bytes(s.value@),
        HeapData::Bytes(b) => b.value@.len(),
        HeapData::List(l) => values_size(l.items@.len()),
        HeapData::Tuple(t) => values_size(t@.len()),
        _ => 0,
    }
}

/// Can the payload be repeated?
pub open spec fn is_sequence(data: HeapData) -> bool {
    data is Str || data is Bytes || data is List || data is Tuple
}

/// May repeating `data` `count` times turn the heap into `after` and give `r`?
///
/// The items of the new sequence are counted references. An error leaves the counts as
/// they were.
pub open spec fn repeats<T: ResourceTracker>(
    before: HeapModel<T>,
    after: HeapModel<T>,
    data: HeapData,
    count: nat,
    r: Result<Option<Value>, RunError>,
) -> bool {
    let refused = before.tracker.large_result_outcome(capped_product(items_size(data), count) as usize);
    if !is_sequence(data) {
        r == Ok::<Option<Value>, RunError>(None) && after == before
    } else if data is Tuple && (count == 0 || item_values(data).len() == 0 && refused is Ok && r is Ok) {
        &&& r == Ok::<Option<Value>, RunError>(Some(Value::Ref(HeapId(EMPTY_TUPLE_SLOT))))
        &&& bumped(before.entries, after.entries, seq![HeapId(EMPTY_TUPLE_SLOT)])
        &&& after == before.with_entries(after.entries)
    } else if let Err(e) = refused {
        r matches Err(err) && err@ == ErrorView::Resource(e) && after == before
    } else {
        match r {
            Ok(Some(v)) => exists|mid: HeapModel<T>, result: HeapData|
                {
                    &&& #[trigger] bumped(before.entries, mid.entries, refs(repeated(item_values(data), count)))
                    &&& mid == before.with_entries(mid.entries)
                    &&& is_repeat(data, result, count)
                    &&& #[trigger] makes(mid, after, result, Ok(v))
                },
            Ok(None) => false,
            Err(err) => err matches RunError::Resource(e) && {
                ||| after == before && before.tracker.time_outcome(Err(e)) && (data is List || data is Tuple)
                ||| exists|result: HeapData|
                    is_repeat(data, result, count) && #[trigger] makes(before, after, result, Err(e))
            },
        }
    }
}

/// Repeats a text.
fn repeats_itself(data: &HeapData) -> (r: bool)
    ensures
        r == is_sequence(*data),
{
    matches!(data, HeapData::Str(_) | HeapData::Bytes(_) | HeapData::List(_) | HeapData::Tuple(_))
}

fn repeat_text(s: &str, count: usize) -> (r: String)
    ensures
        r@ == repeated(s@, count as nat),
{
    let mut r: String = String::new();
    let mut i: usize = 0;
    if s.unicode_len() == 0 {
        proof {
            lemma_repeated_empty(s@, count as nat);
            assert(r@ =~= repeated(s@, count as nat));
        }
        return r;
    }
    proof {
        assert(r@ =~= repeated(s@, 0));
    }
    while i < count
        invariant
            i <= count,
            r@ == repeated(s@, i as nat),
        decreases count - i,
    {
        r.append(s);
        i = i + 1;
    }
    r
}

/// Repeats some bytes.
fn repeat_bytes(b: &[u8], count: usize) -> (r: Vec<u8>)
    ensures
        r@ == repeated(b@, count as nat),
{
    let mut r: Vec<u8> = Vec::new();
    let mut i: usize = 0;
    if b.len() == 0 {
        proof {
            lemma_repeated_empty(b@, count as nat);
            assert(r@ =~= repeated(b@, count as nat));
        }
        return r;
    }
    proof {
        assert(r@ =~= repeated(b@, 0));
    }
    while i < count
        invariant
            i <= count,
            r@ == repeated(b@, i as nat),
        decreases count - i,
    {
        let mut copy: Vec<u8> = copy_vec(b);
        r.append(&mut copy);
        i = i + 1;
    }
    r
}

proof fn lemma_repeated_empty<A>(s: Seq<A>, n: nat)
    requires
        s.len() == 0,
    ensures
        repeated(s, n).len() == 0,
    decreases n,
{
    if n > 0 {
        lemma_repeated_empty(s, (n - 1) as nat);
    }
}

proof fn lemma_repeated_len<A>(s: Seq<A>, n: nat)
    ensures
        repeated(s, n).len() == s.len() * n,
    decreases n,
{
    if n > 0 {
        lemma_repeated_len(s, (n - 1) as nat);
        assert(s.len() * n == s.len() * (n - 1) + s.len()) by (nonlinear_arith)
            requires
                n > 0,
        ;
    } else {
        assert(s.len() * n == 0) by (nonlinear_arith)
            requires
                n == 0,
        ;
    }
}

/// Wraps a resource error.
fn resource_error<A>(e: ResourceError) -> (r: Result<A, RunError>)
    ensures
        r == Err::<A, RunError>(RunError::Resource(e)),
{
    Err(RunError::Resource(e))
}

impl LongInt {
    /// Turns the integer into a value, on the heap only where it does not fit in 64 bits.
    pub fn into_value<T: ResourceTracker>(self, heap: &mut Heap<T>) -> (r: Result<Value, ResourceError>)
        requires
            old(heap)@.wf(),
            old(heap)@.entries.len() < usize::MAX,
        ensures
            final(heap)@.wf(),
            makes_int(old(heap)@, final(heap)@, self@, r),
    {
        match self.to_i64() {
            Some(n) => Ok(Value::Int(n)),
            None => {
                let data: HeapData = HeapData::LongInt(self);
                let ghost d = data;
                let r: Result<Value, ResourceError> = match heap.allocate(data) {
                    Ok(id) => Ok(Value::Ref(id)),
                    Err(e) => Err(e),
                };
                proof {
                    assert(is_long(d, self@));
                    assert(makes(old(heap)@, heap@, d, r));
                }
                r
            },
        }
    }
}

/// Allocates a tuple, or returns the singleton where it has no items.
pub fn allocate_tuple<T: ResourceTracker>(items: Vec<Value>, heap: &mut Heap<T>) -> (r: Result<Value, ResourceError>)
    requires
        old(heap)@.wf(),
        old(heap)@.entries.len() < usize::MAX,
        items@.len() == 0 ==> old(heap)@.room(1),
    ensures
        final(heap)@.wf(),
        if items@.len() == 0 {
            &&& r == Ok::<Value, ResourceError>(Value::Ref(HeapId(EMPTY_TUPLE_SLOT)))
            &&& final(heap)@ == old(heap)@.with_entries(one_more(old(heap)@.entries, HeapId(EMPTY_TUPLE_SLOT)))
        } else {
            exists|t: Tuple| t@ == items@ && #[trigger] makes(old(heap)@, final(heap)@, HeapData::Tuple(t), r)
        },
{
    if items.len() == 0 {
        return Ok(heap.get_empty_tuple());
    }
    let tuple: Tuple = Tuple::new(items);
    let ghost t = tuple;
    let r: Result<Value, ResourceError> = match heap.allocate(HeapData::Tuple(tuple)) {
        Ok(id) => Ok(Value::Ref(id)),
        Err(e) => Err(e),
    };
    proof {
        assert(makes(old(heap)@, heap@, HeapData::Tuple(t), r));
    }
    r
}

impl<T: ResourceTracker> Heap<T> {
    /// Clones some values `count` times over, looking at the clock after each round.
    ///
    /// When the time is up, the clones are dropped again.
    fn clone_rounds(&mut self, items: &[Value], count: usize) -> (r: Result<Vec<Value>, ResourceError>)
        requires
            old(self)@.wf(),
            all_live(old(self)@.entries, refs(items@)),
            old(self)@.room(items@.len() * count as nat),
        ensures
            final(self)@.wf(),
            final(self)@ == old(self)@.with_entries(final(self)@.entries),
            match r {
                Ok(out) => {
                    &&& out@ == repeated(items@, count as nat)
                    &&& bumped(old(self)@.entries, final(self)@.entries, refs(out@))
                },
                Err(e) => old(self)@.tracker.time_outcome(Err(e)) && final(self)@ == old(self)@,
            },
    {
        let mut out: Vec<Value> = Vec::new();
        let mut i: usize = 0;
        proof {
            assert(out@ =~= repeated(items@, 0));
            assert(refs(out@) =~= Seq::empty());
            lemma_bumped_nothing(self@.entries);
        }
        while i < count
            invariant
                i <= count,
                old(self)@.wf(),
                all_live(old(self)@.entries, refs(items@)),
                old(self)@.room(items@.len() * count as nat),
                self@.wf(),
                self@ == old(self)@.with_entries(self@.entries),
                out@ == repeated(items@, i as nat),
                bumped(old(self)@.entries, self@.entries, refs(out@)),
            decreases count - i,
        {
            let ghost before = self@;
            proof {
                lemma_round_room(old(self)@, before, items@, i as nat, count as nat);
            }
            let mut round: Vec<Value> = self.clone_values(items);
            proof {
                lemma_refs_concat(out@, items@);
                lemma_bumped_trans(old(self)@.entries, before.entries, self@.entries, refs(out@), refs(items@));
            }
            out.append(&mut round);
            i = i + 1;
            match self.check_time() {
                Ok(_) => {},
                Err(e) => {
                    self.uncount_rounds(items, i, Ghost(old(self)@.entries));
                    return Err(e);
                },
            }
        }
        Ok(out)
    }

    /// Drops the clones of some values that were made `count` times over.
    fn uncount_rounds(&mut self, items: &[Value], count: usize, start: Ghost<Entries>)
        requires
            old(self)@.wf(),
            counted(start@),
            live(start@, HeapId(EMPTY_TUPLE_SLOT)),
            all_live(start@, refs(items@)),
            bumped(start@, old(self)@.entries, refs(repeated(items@, count as nat))),
        ensures
            final(self)@ == old(self)@.with_entries(start@),
            final(self)@.wf(),
    {
        let mut i: usize = count;
        while i > 0
            invariant
                i <= count,
                self@.wf(),
                counted(start@),
                live(start@, HeapId(EMPTY_TUPLE_SLOT)),
                all_live(start@, refs(items@)),
                self@ == old(self)@.with_entries(self@.entries),
                bumped(start@, self@.entries, refs(repeated(items@, i as nat))),
            decreases i,
        {
            i = i - 1;
            proof {
                lemma_refs_concat(repeated(items@, i as nat), items@);
            }
            self.uncount_values(items, start, Ghost(refs(repeated(items@, i as nat))));
        }
        proof {
            assert(refs(repeated(items@, 0)) =~= Seq::empty());
            lemma_bumped_by_nothing(start@, self@.entries);
        }
    }

    /// Multiplies a heap-allocated value by an `i64`.
    ///
    /// If `id` refers to a `LongInt`, performs integer multiplication with a size
    /// pre-check. Otherwise, treats `id` as a sequence and `int_val` as the repeat
    /// count. This avoids multiple `heap.get()` calls by looking up the data once.
    ///
    /// Returns `Ok(None)` if the heap entry is neither a LongInt nor a sequence type.
    pub fn mult_ref_by_i64(&mut self, id: HeapId, int_val: i64) -> (r: Result<Option<Value>, RunError>)
        requires
            old(self)@.wf(),
            old(self)@.entries.len() < usize::MAX,
            readable(old(self)@.entries, id),
            repeatable(old(self)@, data_at(old(self)@.entries, id), if int_val < 0 { 0 } else { int_val as nat }),
        ensures
            final(self)@.wf(),
            match data_at(old(self)@.entries, id) {
                HeapData::LongInt(li) => multiplies(old(self)@, final(self)@, li@, int_val as int, r),
                data => repeats_by(old(self)@, final(self)@, data, int_val as int, r),
            },
    {
        if let HeapData::LongInt(li) = self.get(id) {
            let factor: LongInt = LongInt::from_i64(int_val);
            let bits: u64 = i64_bits(int_val);
            match check_mult_size(li.bits(), bits, &self.tracker) {
                Ok(_) => {},
                Err(e) => {
                    return resource_error(e);
                },
            }
            let result: LongInt = li.times(&factor);
            match result.into_value(self) {
                Ok(v) => Ok(Some(v)),
                Err(e) => resource_error(e),
            }
        } else {
            if !repeats_itself(self.get(id)) {
                return Ok(None);
            }
            match i64_to_repeat_count(int_val) {
                Ok(count) => self.mult_sequence(id, count),
                Err(e) => Err(e),
            }
        }
    }

    /// Multiplies two heap-allocated values.
    ///
    /// Returns Ok(None) for unsupported type combinations.
    pub fn mult_heap_values(&mut self, id1: HeapId, id2: HeapId) -> (r: Result<Option<Value>, RunError>)
        requires
            old(self)@.wf(),
            old(self)@.entries.len() < usize::MAX,
            readable(old(self)@.entries, id1),
            readable(old(self)@.entries, id2),
            data_at(old(self)@.entries, id1) matches HeapData::LongInt(li) ==> repeatable(
                old(self)@,
                data_at(old(self)@.entries, id2),
                if li@ < 0 { 0 } else { li@ as nat },
            ),
            data_at(old(self)@.entries, id2) matches HeapData::LongInt(li) ==> repeatable(
                old(self)@,
                data_at(old(self)@.entries, id1),
                if li@ < 0 { 0 } else { li@ as nat },
            ),
        ensures
            final(self)@.wf(),
            multiplies_values(
                old(self)@,
                final(self)@,
                data_at(old(self)@.entries, id1),
                data_at(old(self)@.entries, id2),
                r,
            ),
    {
        let (seq_id, count): (HeapId, usize) = match (self.get(id1), self.get(id2)) {
            (HeapData::LongInt(a), HeapData::LongInt(b)) => {
                match check_mult_size(a.bits(), b.bits(), &self.tracker) {
                    Ok(_) => {},
                    Err(e) => {
                        return resource_error(e);
                    },
                }
                let result: LongInt = a.times(b);
                return match result.into_value(self) {
                    Ok(v) => Ok(Some(v)),
                    Err(e) => resource_error(e),
                };
            },
            (HeapData::LongInt(li), data) => {
                if !repeats_itself(data) {
                    return Ok(None);
                }
                match longint_to_repeat_count(li) {
                    Ok(count) => (id2, count),
                    Err(e) => {
                        return Err(e);
                    },
                }
            },
            (data, HeapData::LongInt(li)) => {
                if !repeats_itself(data) {
                    return Ok(None);
                }
                match longint_to_repeat_count(li) {
                    Ok(count) => (id1, count),
                    Err(e) => {
                        return Err(e);
                    },
                }
            },
            _ => {
                return Ok(None);
            },
        };
        self.mult_sequence(seq_id, count)
    }

    /// Multiplies (repeats) a sequence by an integer count.
    ///
    /// This method handles sequence repetition for Python's `*` operator when applied
    /// to sequences (str, bytes, list, tuple). It creates a new heap-allocated sequence
    /// with the elements repeated `count` times.
    ///
    /// # Arguments
    /// * `id` - HeapId of the sequence to repeat
    /// * `count` - Number of times to repeat (0 returns empty sequence)
    ///
    /// # Returns
    /// * `Ok(Some(Value))` - The new repeated sequence
    /// * `Ok(None)` - If the heap entry is not a sequence type
    /// * `Err` - If allocation fails due to resource limits
    pub fn mult_sequence(&mut self, id: HeapId, count: usize) -> (r: Result<Option<Value>, RunError>)
        requires
            old(self)@.wf(),
            old(self)@.entries.len() < usize::MAX,
            readable(old(self)@.entries, id),
            repeatable(old(self)@, data_at(old(self)@.entries, id), count as nat),
        ensures
            final(self)@.wf(),
            repeats(old(self)@, final(self)@, data_at(old(self)@.entries, id), count as nat, r),
    {
        let ghost before = self@;
        let ghost source = data_at(before.entries, id);
        proof {
            assert(refs(repeated(Seq::<Value>::empty(), count as nat)) =~= Seq::empty()) by {
                lemma_repeated_empty(Seq::<Value>::empty(), count as nat);
            }
            lemma_bumped_nothing(before.entries);
        }
        match self.get(id) {
            HeapData::Str(s) => {
                match check_repeat_size(byte_len(s.as_str()), count, &self.tracker) {
                    Ok(_) => {},
                    Err(e) => {
                        return resource_error(e);
                    },
                }
                let data: HeapData = HeapData::Str(Str::new(repeat_text(s.as_str(), count)));
                let ghost result = data;
                let out: Result<HeapId, ResourceError> = self.allocate(data);
                proof {
                    assert(is_repeat(source, result, count as nat));
                    assert(bumped(before.entries, before.entries, refs(repeated(item_values(source), count as nat))));
                }
                match out {
                    Ok(new_id) => {
                        assert(makes(before, self@, result, Ok(Value::Ref(new_id))));
                        Ok(Some(Value::Ref(new_id)))
                    },
                    Err(e) => {
                        assert(makes(before, self@, result, Err(e)));
                        resource_error(e)
                    },
                }
            },
            HeapData::Bytes(b) => {
                match check_repeat_size(b.as_slice().len(), count, &self.tracker) {
                    Ok(_) => {},
                    Err(e) => {
                        return resource_error(e);
                    },
                }
                let data: HeapData = HeapData::Bytes(Bytes::new(repeat_bytes(b.as_slice(), count)));
                let ghost result = data;
                let out: Result<HeapId, ResourceError> = self.allocate(data);
                proof {
                    assert(is_repeat(source, result, count as nat));
                    assert(bumped(before.entries, before.entries, refs(repeated(item_values(source), count as nat))));
                }
                match out {
                    Ok(new_id) => {
                        assert(makes(before, self@, result, Ok(Value::Ref(new_id))));
                        Ok(Some(Value::Ref(new_id)))
                    },
                    Err(e) => {
                        assert(makes(before, self@, result, Err(e)));
                        resource_error(e)
                    },
                }
            },
            HeapData::List(list) => {
                match check_repeat_size(size_of_values(list.items.len()), count, &self.tracker) {
                    Ok(_) => {},
                    Err(e) => {
                        return resource_error(e);
                    },
                }
                let items: Vec<Value> = copy_vec(list.as_slice());
                let out: Vec<Value> = match self.clone_rounds(items.as_slice(), count) {
                    Ok(out) => out,
                    Err(e) => {
                        return resource_error(e);
                    },
                };
                let ghost mid = self@;
                let data: HeapData = HeapData::List(List::new(out));
                let ghost result = data;
                let out: Result<HeapId, ResourceError> = self.allocate(data);
                proof {
                    assert(is_repeat(source, result, count as nat));
                    assert(bumped(before.entries, mid.entries, refs(repeated(item_values(source), count as nat))));
                }
                match out {
                    Ok(new_id) => {
                        assert(makes(mid, self@, result, Ok(Value::Ref(new_id))));
                        Ok(Some(Value::Ref(new_id)))
                    },
                    Err(e) => {
                        self.uncount_rounds(items.as_slice(), count, Ghost(before.entries));
                        proof {
                            assert(self@ =~= HeapModel { tracker: self@.tracker, ..before });
                            assert(makes(before, self@, result, Err(e)));
                        }
                        resource_error(e)
                    },
                }
            },
            HeapData::Tuple(tuple) => {
                if count == 0 {
                    proof {
                        lemma_bumped_push(before.entries, before.entries, Seq::empty(), HeapId(EMPTY_TUPLE_SLOT));
                        assert(Seq::<HeapId>::empty().push(HeapId(EMPTY_TUPLE_SLOT)) =~= seq![HeapId(
                            EMPTY_TUPLE_SLOT,
                        )]);
                    }
                    return Ok(Some(self.get_empty_tuple()));
                }
                match check_repeat_size(size_of_values(tuple.as_slice().len()), count, &self.tracker) {
                    Ok(_) => {},
                    Err(e) => {
                        return resource_error(e);
                    },
                }
                let items: Vec<Value> = copy_vec(tuple.as_slice());
                let out: Vec<Value> = match self.clone_rounds(items.as_slice(), count) {
                    Ok(out) => out,
                    Err(e) => {
                        return resource_error(e);
                    },
                };
                let ghost mid = self@;
                proof {
                    lemma_repeated_len(items@, count as nat);
                    assert(bumped(before.entries, mid.entries, refs(repeated(item_values(source), count as nat))));
                    if out@.len() == 0 {
                        lemma_room_left(before, mid, items@, count as nat);
                    }
                }
                let ghost empty = out@.len() == 0;
                let made: Result<Value, ResourceError> = allocate_tuple(out, self);
                proof {
                    if empty {
                        assert(items@.len() == 0) by (nonlinear_arith)
                            requires
                                items@.len() * count == 0,
                                count > 0,
                        ;
                        assert(refs(out@) =~= Seq::empty());
                        lemma_bumped_push(mid.entries, mid.entries, Seq::empty(), HeapId(EMPTY_TUPLE_SLOT));
                        lemma_bumped_trans(
                            before.entries,
                            mid.entries,
                            self@.entries,
                            Seq::empty(),
                            Seq::empty().push(HeapId(EMPTY_TUPLE_SLOT)),
                        );
                        assert(Seq::empty() + Seq::empty().push(HeapId(EMPTY_TUPLE_SLOT)) =~= seq![HeapId(
                            EMPTY_TUPLE_SLOT,
                        )]);
                    }
                }
                match made {
                    Ok(v) => {
                        proof {
                            if !empty {
                                let t = choose|t: Tuple|
                                    t@ == out@ && #[trigger] makes(mid, self@, HeapData::Tuple(t), made);
                                assert(is_repeat(source, HeapData::Tuple(t), count as nat));
                                assert(makes(mid, self@, HeapData::Tuple(t), Ok(v)));
                            }
                        }
                        Ok(Some(v))
                    },
                    Err(e) => {
                        let ghost mut refused = source;
                        proof {
                            let t = choose|t: Tuple|
                                t@ == out@ && #[trigger] makes(mid, self@, HeapData::Tuple(t), made);
                            assert(is_repeat(source, HeapData::Tuple(t), count as nat));
                            refused = HeapData::Tuple(t);
                        }
                        self.uncount_rounds(items.as_slice(), count, Ghost(before.entries));
                        proof {
                            assert(self@ =~= HeapModel { tracker: self@.tracker, ..before });
                            assert(makes(before, self@, refused, Err(e)));
                        }
                        resource_error(e)
                    },
                }
            },
            _ => Ok(None),
        }
    }
}

/// Can the items of `data` be counted `count` more times?
///
/// Nothing is counted where the count is too large for a `usize` or the tracker
/// refuses the result's size. Repeating a tuple no times needs no such leave.
pub open spec fn repeatable<T: ResourceTracker>(m: HeapModel<T>, data: HeapData, count: nat) -> bool {
    &&& all_live(m.entries, refs(item_values(data)))
    &&& (data is Tuple && count == 0) || may_repeat(m, data, count) ==> m.room(references_taken(data, count))
}

/// Does the tracker let `data` be repeated `count` times?
pub open spec fn may_repeat<T: ResourceTracker>(m: HeapModel<T>, data: HeapData, count: nat) -> bool {
    &&& count <= usize::MAX
    &&& m.tracker.large_result_outcome(capped_product(items_size(data), count) as usize) is Ok
}

/// How many references can repeating `data` `count` times add to one entry?
///
/// An empty tuple is one more reference to the singleton.
pub open spec fn references_taken(data: HeapData, count: nat) -> nat {
    if data is Tuple && item_values(data).len() * count == 0 {
        1
    } else {
        item_values(data).len() * count
    }
}

/// May multiplying the payloads `a` and `b` turn the heap into `after` and give `r`?
pub open spec fn multiplies_values<T: ResourceTracker>(
    before: HeapModel<T>,
    after: HeapModel<T>,
    a: HeapData,
    b: HeapData,
    r: Result<Option<Value>, RunError>,
) -> bool {
    match (a, b) {
        (HeapData::LongInt(x), HeapData::LongInt(y)) => multiplies(before, after, x@, y@, r),
        (HeapData::LongInt(li), data) => repeats_by(before, after, data, li@, r),
        (data, HeapData::LongInt(li)) => repeats_by(before, after, data, li@, r),
        _ => r == Ok::<Option<Value>, RunError>(None) && after == before,
    }
}

/// May multiplying two integers turn the heap into `after` and give `r`?
pub open spec fn multiplies<T: ResourceTracker>(
    before: HeapModel<T>,
    after: HeapModel<T>,
    a: int,
    b: int,
    r: Result<Option<Value>, RunError>,
) -> bool {
    match before.tracker.large_result_outcome(
        product_bytes(bit_length(magnitude(a)) as u64, bit_length(magnitude(b)) as u64) as usize,
    ) {
        Err(e) => r matches Err(err) && err@ == ErrorView::Resource(e) && after == before,
        Ok(_) => match r {
            Ok(Some(v)) => makes_int(before, after, a * b, Ok(v)),
            Ok(None) => false,
            Err(err) => err matches RunError::Resource(e) && makes_int(before, after, a * b, Err(e)),
        },
    }
}

/// May repeating `data` `n` times, or not at all for a negative `n`, turn the heap
/// into `after` and give `r`?
///
/// A payload that is no sequence is refused before the count is looked at.
pub open spec fn repeats_by<T: ResourceTracker>(
    before: HeapModel<T>,
    after: HeapModel<T>,
    data: HeapData,
    n: int,
    r: Result<Option<Value>, RunError>,
) -> bool {
    if !is_sequence(data) {
        r == Ok::<Option<Value>, RunError>(None) && after == before
    } else if n > usize::MAX {
        r matches Err(err) && err@ == ErrorView::OverflowRepeatCount && after == before
    } else {
        repeats(before, after, data, if n < 0 { 0 } else { n as nat }, r)
    }
}

/// An allocation gives a reference to a new entry with the payload, and changes no other.
pub proof fn lemma_made<T: ResourceTracker>(
    before: HeapModel<T>,
    after: HeapModel<T>,
    data: HeapData,
    v: Value,
)
    requires
        before.wf(),
        before.entries.len() < usize::MAX,
        makes(before, after, data, Ok(v)),
    ensures
        v == Value::Ref(before.next_id()),
        data_at(after.entries, before.next_id()) == data,
        grown(before.entries, after.entries),
{
    allocation_balances(before, data, after.tracker);
}

proof fn lemma_round_room<T: ResourceTracker>(
    first: HeapModel<T>,
    now: HeapModel<T>,
    items: Seq<Value>,
    done: nat,
    count: nat,
)
    requires
        done < count,
        first.room(items.len() * count),
        bumped(first.entries, now.entries, refs(repeated(items, done))),
        all_live(first.entries, refs(items)),
    ensures
        now.room(items.len()),
        all_live(now.entries, refs(items)),
{
    let ids = refs(repeated(items, done));
    assert forall|i: int| 0 <= i < now.entries.len() implies (#[trigger] now.entries[i] matches Some(v) ==> v.refcount
        + items.len() <= usize::MAX) by {
        assert(crate::heap_ops::slot_bumped(first.entries[i], now.entries[i], tally(ids, HeapId(i as usize))));
        crate::heap_ops::lemma_tally_bound(ids, HeapId(i as usize));
        crate::heap_ops::lemma_refs_len(repeated(items, done));
        lemma_repeated_len(items, done);
        assert(items.len() * done + items.len() <= items.len() * count) by (nonlinear_arith)
            requires
                done < count,
        ;
        assert(first.entries[i] matches Some(v) ==> v.refcount + items.len() * count <= usize::MAX);
    }
    assert forall|k: int| 0 <= k < refs(items).len() implies live(now.entries, #[trigger] refs(items)[k]) by {
        let x = refs(items)[k];
        assert(live(first.entries, x));
        assert(crate::heap_ops::slot_bumped(
            first.entries[x.0 as int],
            now.entries[x.0 as int],
            tally(ids, HeapId(x.0)),
        ));
    }
}

proof fn lemma_room_left<T: ResourceTracker>(first: HeapModel<T>, now: HeapModel<T>, items: Seq<Value>, count: nat)
    requires
        items.len() * count == 0,
        first.room(1),
        bumped(first.entries, now.entries, refs(repeated(items, count))),
    ensures
        now.room(1),
{
    let ids = refs(repeated(items, count));
    assert forall|i: int| 0 <= i < now.entries.len() implies (#[trigger] now.entries[i] matches Some(v) ==> v.refcount
        + 1 <= usize::MAX) by {
        assert(crate::heap_ops::slot_bumped(first.entries[i], now.entries[i], tally(ids, HeapId(i as usize))));
        crate::heap_ops::lemma_tally_bound(ids, HeapId(i as usize));
        crate::heap_ops::lemma_refs_len(repeated(items, count));
        lemma_repeated_len(items, count);
        assert(first.entries[i] matches Some(v) ==> v.refcount + 1 <= usize::MAX);
    }
}

} // verus!
