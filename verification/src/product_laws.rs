//! Laws of multiplication: the order of the operands does not matter.

use crate::exceptions::{ErrorView, RunError};
use crate::growth::{grown, lemma_bumped_grown, lemma_grown_trans};
use crate::heap::{EMPTY_TUPLE_SLOT, HeapModel};
use crate::heap_arith::{
    is_repeat, is_sequence, item_values, items_size, lemma_made, makes, multiplies, multiplies_values, repeated, repeats_by,
};
use crate::heap_data::HeapData;
use crate::heap_model::{data_at, live};
use crate::heap_ops::{bumped, slot_bumped};
use crate::resource::{ResourceTracker, capped_product, product_bytes};
use crate::types::long_int::{bit_length, magnitude};
use crate::value::{HeapId, Value, refs, tally};
use vstd::prelude::*;

verus! {

/// Do two payloads hold the same number, text, bytes or items?
pub open spec fn alike(p: HeapData, q: HeapData) -> bool {
    match (p, q) {
        (HeapData::LongInt(a), HeapData::LongInt(b)) => a@ == b@,
        (HeapData::Str(a), HeapData::Str(b)) => a.value@ == b.value@,
        (HeapData::Bytes(a), HeapData::Bytes(b)) => a.value@ == b.value@,
        (HeapData::List(a), HeapData::List(b)) => a.items@ == b.items@,
        (HeapData::Tuple(a), HeapData::Tuple(b)) => a@ == b@,
        _ => p == q,
    }
}

/// The error that a product of `a` and `b` ends in whatever the clock and the
/// allocator say.
pub open spec fn refusal<T: ResourceTracker>(m: HeapModel<T>, a: HeapData, b: HeapData) -> Option<ErrorView> {
    match (a, b) {
        (HeapData::LongInt(x), HeapData::LongInt(y)) => match m.tracker.large_result_outcome(
            product_bytes(bit_length(magnitude(x@)) as u64, bit_length(magnitude(y@)) as u64) as usize,
        ) {
            Err(e) => Some(ErrorView::Resource(e)),
            Ok(_) => None,
        },
        (HeapData::LongInt(li), data) => repeat_refusal(m, data, li@),
        (data, HeapData::LongInt(li)) => repeat_refusal(m, data, li@),
        _ => None,
    }
}

/// The error that repeating `data` `n` times ends in whatever the clock and the
/// allocator say.
pub open spec fn repeat_refusal<T: ResourceTracker>(m: HeapModel<T>, data: HeapData, n: int) -> Option<ErrorView> {
    if !is_sequence(data) || data is Tuple && n <= 0 {
        None
    } else if n > usize::MAX {
        Some(ErrorView::OverflowRepeatCount)
    } else {
        match m.tracker.large_result_outcome(
            capped_product(items_size(data), if n < 0 { 0 } else { n as nat }) as usize,
        ) {
            Err(e) => Some(ErrorView::Resource(e)),
            Ok(_) => None,
        }
    }
}

/// What multiplying two values may give does not depend on their order.
pub proof fn either_order_multiplies<T: ResourceTracker>(
    before: HeapModel<T>,
    after: HeapModel<T>,
    a: HeapData,
    b: HeapData,
    r: Result<Option<Value>, RunError>,
)
    ensures
        multiplies_values(before, after, a, b, r) == multiplies_values(before, after, b, a, r),
        refusal(before, a, b) == refusal(before, b, a),
{
    if let (HeapData::LongInt(x), HeapData::LongInt(y)) = (a, b) {
        let (p, q) = (x@, y@);
        assert(p * q == q * p) by (nonlinear_arith);
    }
}

/// Multiplying two values in either order gives results that agree: both are
/// unsupported, both are refused with the same error, or both are the same value
/// with the same contents. The operands stay as they are.
///
/// Only the clock and the allocator can let one succeed and the other fail.
pub proof fn products_agree<T: ResourceTracker>(
    before: HeapModel<T>,
    one: HeapModel<T>,
    other: HeapModel<T>,
    a: HeapData,
    b: HeapData,
    r: Result<Option<Value>, RunError>,
    s: Result<Option<Value>, RunError>,
)
    requires
        before.wf(),
        before.entries.len() < usize::MAX,
        multiplies_values(before, one, a, b, r),
        multiplies_values(before, other, b, a, s),
    ensures
        r == Ok::<Option<Value>, RunError>(None) <==> s == Ok::<Option<Value>, RunError>(None),
        refusal(before, a, b) matches Some(e) ==> {
            &&& r matches Err(x) && x@ == e
            &&& s matches Err(y) && y@ == e
        },
        r is Ok && s is Ok ==> r == s,
        r is Ok && s is Ok ==> (r matches Ok(Some(Value::Ref(id))) ==> alike(
            data_at(one.entries, id),
            data_at(other.entries, id),
        )),
        grown(before.entries, one.entries),
        grown(before.entries, other.entries),
{
    either_order_multiplies(before, other, a, b, s);
    match (a, b) {
        (HeapData::LongInt(x), HeapData::LongInt(y)) => {
            lemma_multiplied(before, one, x@, y@, r);
            lemma_multiplied(before, other, x@, y@, s);
        },
        (HeapData::LongInt(li), data) => {
            lemma_repeated_by(before, one, data, li@, r);
            lemma_repeated_by(before, other, data, li@, s);
        },
        (data, HeapData::LongInt(li)) => {
            lemma_repeated_by(before, one, data, li@, r);
            lemma_repeated_by(before, other, data, li@, s);
        },
        _ => {},
    }
}

proof fn lemma_multiplied<T: ResourceTracker>(
    before: HeapModel<T>,
    after: HeapModel<T>,
    a: int,
    b: int,
    r: Result<Option<Value>, RunError>,
)
    requires
        before.wf(),
        before.entries.len() < usize::MAX,
        multiplies(before, after, a, b, r),
    ensures
        grown(before.entries, after.entries),
        r matches Ok(Some(v)) ==> if i64::MIN <= a * b <= i64::MAX {
            v == Value::Int((a * b) as i64)
        } else {
            &&& v == Value::Ref(before.next_id())
            &&& data_at(after.entries, before.next_id()) matches HeapData::LongInt(li) && li@ == a * b
        },
        r != Ok::<Option<Value>, RunError>(None),
{
    if let Ok(Some(v)) = r {
        if !(i64::MIN <= a * b <= i64::MAX) {
            let data = choose|data: HeapData|
                crate::heap_arith::is_long(data, a * b) && #[trigger] makes(before, after, data, Ok(v));
            lemma_made(before, after, data, v);
        }
    }
}

proof fn lemma_repeated_by<T: ResourceTracker>(
    before: HeapModel<T>,
    after: HeapModel<T>,
    data: HeapData,
    n: int,
    r: Result<Option<Value>, RunError>,
)
    requires
        before.wf(),
        before.entries.len() < usize::MAX,
        repeats_by(before, after, data, n, r),
    ensures
        grown(before.entries, after.entries),
        r matches Ok(Some(v)) ==> {
            let count = if n < 0 { 0 } else { n as nat };
            if data is Tuple && (count == 0 || item_values(data).len() == 0) {
                &&& v == Value::Ref(HeapId(EMPTY_TUPLE_SLOT))
                &&& data_at(after.entries, HeapId(EMPTY_TUPLE_SLOT)) == data_at(
                    before.entries,
                    HeapId(EMPTY_TUPLE_SLOT),
                )
            } else {
                &&& v == Value::Ref(before.next_id())
                &&& is_repeat(data, data_at(after.entries, before.next_id()), count)
            }
        },
        r == Ok::<Option<Value>, RunError>(None) <==> !is_sequence(data),
{
    if is_sequence(data) && n <= usize::MAX {
        let count = if n < 0 { 0 } else { n as nat };
        let refused = before.tracker.large_result_outcome(capped_product(items_size(data), count) as usize);
        if data is Tuple && (count == 0 || item_values(data).len() == 0 && refused is Ok && r is Ok) {
            lemma_bumped_grown(before.entries, after.entries, seq![HeapId(EMPTY_TUPLE_SLOT)]);
            assert(live(before.entries, HeapId(EMPTY_TUPLE_SLOT)));
        } else if refused is Ok {
            if let Ok(Some(v)) = r {
                let (mid, result) = choose|mid: HeapModel<T>, result: HeapData|
                    {
                        &&& #[trigger] bumped(before.entries, mid.entries, refs(repeated(item_values(data), count)))
                        &&& mid == before.with_entries(mid.entries)
                        &&& is_repeat(data, result, count)
                        &&& #[trigger] makes(mid, after, result, Ok(v))
                    };
                let ids = refs(repeated(item_values(data), count));
                lemma_bumped_grown(before.entries, mid.entries, ids);
                lemma_bumped_wf(before, mid, ids);
                lemma_made(mid, after, result, v);
                lemma_grown_trans(before.entries, mid.entries, after.entries);
            }
        }
    }
}

pub proof fn lemma_bumped_wf<T: ResourceTracker>(a: HeapModel<T>, b: HeapModel<T>, ids: Seq<HeapId>)
    requires
        a.wf(),
        bumped(a.entries, b.entries, ids),
        b == a.with_entries(b.entries),
    ensures
        b.wf(),
{
    assert forall|i: int| 0 <= i < a.entries.len() implies slot_bumped(
        a.entries[i],
        #[trigger] b.entries[i],
        tally(ids, HeapId(i as usize)),
    ) by {}
    assert forall|k: int| 0 <= k < b.free.len() implies (#[trigger] b.free[k]).0 < b.entries.len()
        && b.entries[b.free[k].0 as int] is None by {
        assert(a.entries[a.free[k].0 as int] is None);
    }
}

} // verus!
