//! What products, remainders and repetitions are.

use crate::exceptions::RunError;
use crate::growth::lemma_bumped_grown;
use crate::heap::{EMPTY_TUPLE_SLOT, HeapModel};
use crate::heap_arith::{
    is_repeat, item_values, items_size, lemma_made, makes, makes_int, multiplies_values, repeated, repeats,
};
use crate::heap_data::HeapData;
use crate::heap_model::{Entries, data_at, live, readable};
use crate::heap_ops::bumped;
use crate::measure_laws::at_most_max;
use crate::operators::{Dispatch, adds, subtracts, shared_type, subtracting_type, takes_modulo};
use crate::product_laws::lemma_bumped_wf;
use crate::resource::{ResourceError, ResourceTracker, capped_product, product_bytes};
use crate::types::long_int::{bit_length, floor_mod, magnitude};
use crate::value::{HeapId, Value, refs};
use vstd::arithmetic::power2::pow2;
use vstd::prelude::*;

verus! {

/// The integer that a value is, with the heap's entries at hand.
pub open spec fn integer_at(e: Entries, v: Value) -> Option<int> {
    match v {
        Value::Int(n) => Some(n as int),
        Value::Ref(id) => match data_at(e, id) {
            HeapData::LongInt(x) => Some(x@),
            _ => None,
        },
        _ => None,
    }
}

/// Making a value of an integer gives that integer, and on the heap only where it does not
/// fit in 64 bits.
pub proof fn integers_become_values<T: ResourceTracker>(before: HeapModel<T>, after: HeapModel<T>, n: int, v: Value)
    requires
        before.wf(),
        before.entries.len() < usize::MAX,
        makes_int(before, after, n, Ok(v)),
    ensures
        integer_at(after.entries, v) == Some(n),
        v is Int <==> i64::MIN <= n <= i64::MAX,
        v is Int ==> after == before,
{
    if !(i64::MIN <= n <= i64::MAX) {
        let data = choose|data: HeapData|
            (data matches HeapData::LongInt(li) && li@ == n) && #[trigger] makes(before, after, data, Ok(v));
        lemma_made(before, after, data, v);
    }
}

/// A sequence that is repeated `n` times is `n` times as long, and starts over after each
/// round.
pub proof fn repetitions_start_over<A>(s: Seq<A>, n: nat, i: int)
    requires
        0 <= i < repeated(s, n).len(),
    ensures
        repeated(s, n).len() == n * s.len(),
        s.len() > 0,
        repeated(s, n)[i] == s[i % s.len() as int],
    decreases n,
{
    lemma_rounds(s, n);
    let rest = repeated(s, (n - 1) as nat);
    lemma_rounds(s, (n - 1) as nat);
    assert(n * s.len() == (n - 1) * s.len() + s.len()) by (nonlinear_arith)
        requires
            n > 0,
    ;
    if s.len() == 0 {
        assert(n * s.len() == 0) by (nonlinear_arith)
            requires
                s.len() == 0,
        ;
    }
    if i < rest.len() {
        repetitions_start_over(s, (n - 1) as nat, i);
    } else {
        let j = i - (n - 1) * s.len();
        vstd::arithmetic::div_mod::lemma_mod_multiples_vanish(n - 1, j, s.len() as int);
        vstd::arithmetic::mul::lemma_mul_is_commutative(n - 1, s.len() as int);
        vstd::arithmetic::div_mod::lemma_small_mod(j as nat, s.len());
        assert(s.len() * (n - 1) + j == i);
    }
}

proof fn lemma_rounds<A>(s: Seq<A>, n: nat)
    ensures
        repeated(s, n).len() == n * s.len(),
    decreases n,
{
    if n > 0 {
        lemma_rounds(s, (n - 1) as nat);
        assert(n * s.len() == (n - 1) * s.len() + s.len()) by (nonlinear_arith)
            requires
                n > 0,
        ;
    } else {
        assert(n * s.len() == 0) by (nonlinear_arith)
            requires
                n == 0,
        ;
    }
}

/// The remainder of a division has the sign of the divisor and is smaller. What is left
/// without it is a multiple of the divisor.
pub proof fn remainders_have_the_sign_of_the_divisor(a: int, b: int)
    requires
        b != 0,
    ensures
        b > 0 ==> 0 <= floor_mod(a, b) < b,
        b < 0 ==> b < floor_mod(a, b) <= 0,
        exists|q: int| a == #[trigger] (q * b) + floor_mod(a, b),
{
    if b > 0 {
        vstd::arithmetic::div_mod::lemma_fundamental_div_mod(a, b);
        let q = a / b;
        assert(b * q == q * b) by (nonlinear_arith);
        assert(a == q * b + floor_mod(a, b));
    } else {
        vstd::arithmetic::div_mod::lemma_fundamental_div_mod(-a, -b);
        let q = (-a) / (-b);
        assert((-b) * q == -(q * b)) by (nonlinear_arith);
        assert(a == q * b + floor_mod(a, b));
    }
}

/// A number has as many binary digits as its bit length says, and the first one is not
/// zero.
pub proof fn bit_lengths_are_logarithms(n: nat)
    ensures
        n < pow2(bit_length(n)),
        n > 0 ==> bit_length(n) > 0 && pow2((bit_length(n) - 1) as nat) <= n,
        n == 0 ==> bit_length(n) == 0,
    decreases n,
{
    if n == 0 {
        vstd::arithmetic::power2::lemma2_to64();
    } else {
        bit_lengths_are_logarithms(n / 2);
        vstd::arithmetic::power2::lemma_pow2_unfold(bit_length(n));
        if n / 2 > 0 {
            vstd::arithmetic::power2::lemma_pow2_unfold((bit_length(n) - 1) as nat);
        } else {
            vstd::arithmetic::power2::lemma2_to64();
        }
    }
}

/// Has the second payload the items of the first `n` times over, one round after the other?
pub open spec fn rounds_of(data: HeapData, result: HeapData, n: nat) -> bool {
    match (data, result) {
        (HeapData::Str(x), HeapData::Str(y)) => {
            &&& y.value@.len() == n * x.value@.len()
            &&& forall|i: int| 0 <= i < y.value@.len() ==> #[trigger] y.value@[i] == x.value@[i % x.value@.len() as int]
        },
        (HeapData::Bytes(x), HeapData::Bytes(y)) => {
            &&& y.value@.len() == n * x.value@.len()
            &&& forall|i: int| 0 <= i < y.value@.len() ==> #[trigger] y.value@[i] == x.value@[i % x.value@.len() as int]
        },
        (HeapData::List(x), HeapData::List(y)) => {
            &&& y.items@.len() == n * x.items@.len()
            &&& forall|i: int| 0 <= i < y.items@.len() ==> #[trigger] y.items@[i] == x.items@[i % x.items@.len() as int]
        },
        (HeapData::Tuple(x), HeapData::Tuple(y)) => {
            &&& y@.len() == n * x@.len()
            &&& forall|i: int| 0 <= i < y@.len() ==> #[trigger] y@[i] == x@[i % x@.len() as int]
        },
        _ => false,
    }
}

proof fn lemma_rounds_of(data: HeapData, result: HeapData, n: nat)
    requires
        is_repeat(data, result, n),
    ensures
        rounds_of(data, result, n),
{
    match (data, result) {
        (HeapData::Str(x), HeapData::Str(y)) => lemma_all_rounds(x.value@, n),
        (HeapData::Bytes(x), HeapData::Bytes(y)) => lemma_all_rounds(x.value@, n),
        (HeapData::List(x), HeapData::List(y)) => lemma_all_rounds(x.items@, n),
        (HeapData::Tuple(x), HeapData::Tuple(y)) => lemma_all_rounds(x@, n),
        _ => {},
    }
}

proof fn lemma_all_rounds<A>(s: Seq<A>, n: nat)
    ensures
        repeated(s, n).len() == n * s.len(),
        forall|i: int| 0 <= i < repeated(s, n).len() ==> #[trigger] repeated(s, n)[i] == s[i % s.len() as int],
{
    lemma_rounds(s, n);
    assert forall|i: int| 0 <= i < repeated(s, n).len() implies #[trigger] repeated(s, n)[i] == s[i % s.len() as int] by {
        repetitions_start_over(s, n, i);
    }
}

/// How often a sequence is repeated by a number.
pub open spec fn times(n: int) -> nat {
    if n < 0 { 0 } else { n as nat }
}

proof fn lemma_repeats<T: ResourceTracker>(
    before: HeapModel<T>,
    after: HeapModel<T>,
    data: HeapData,
    n: nat,
    v: Value,
)
    requires
        before.wf(),
        before.entries.len() < usize::MAX,
        readable(before.entries, HeapId(EMPTY_TUPLE_SLOT)),
        repeats(before, after, data, n, Ok(Some(v))),
    ensures
        v matches Value::Ref(id) && rounds_of(data, data_at(after.entries, id), n),
{
    if data is Tuple && (n == 0 || item_values(data).len() == 0) && v == Value::Ref(HeapId(EMPTY_TUPLE_SLOT)) && bumped(
        before.entries,
        after.entries,
        seq![HeapId(EMPTY_TUPLE_SLOT)],
    ) {
        lemma_bumped_grown(before.entries, after.entries, seq![HeapId(EMPTY_TUPLE_SLOT)]);
        assert(live(before.entries, HeapId(EMPTY_TUPLE_SLOT)));
        assert(n * item_values(data).len() == 0) by (nonlinear_arith)
            requires
                n == 0 || item_values(data).len() == 0,
        ;
    } else {
        let (mid, result) = choose|mid: HeapModel<T>, result: HeapData|
            {
                &&& #[trigger] bumped(before.entries, mid.entries, refs(repeated(item_values(data), n)))
                &&& mid == before.with_entries(mid.entries)
                &&& is_repeat(data, result, n)
                &&& #[trigger] makes(mid, after, result, Ok(v))
            };
        lemma_bumped_wf(before, mid, refs(repeated(item_values(data), n)));
        lemma_made(mid, after, result, v);
        lemma_rounds_of(data, result, n);
    }
}

/// A product of two long integers is their product. A sequence times a number, on either
/// side, is the sequence that many times over, or nothing of it where the number is
/// negative. Nothing else can be multiplied.
pub proof fn products_are_products_or_repetitions<T: ResourceTracker>(
    before: HeapModel<T>,
    after: HeapModel<T>,
    a: HeapData,
    b: HeapData,
    v: Value,
)
    requires
        before.wf(),
        before.entries.len() < usize::MAX,
        readable(before.entries, HeapId(EMPTY_TUPLE_SLOT)),
        multiplies_values(before, after, a, b, Ok(Some(v))),
    ensures
        match (a, b) {
            (HeapData::LongInt(x), HeapData::LongInt(y)) => integer_at(after.entries, v) == Some(x@ * y@),
            (HeapData::LongInt(x), _) => v matches Value::Ref(id) && rounds_of(b, data_at(after.entries, id), times(x@)),
            (_, HeapData::LongInt(y)) => v matches Value::Ref(id) && rounds_of(a, data_at(after.entries, id), times(y@)),
            _ => false,
        },
{
    match (a, b) {
        (HeapData::LongInt(x), HeapData::LongInt(y)) => integers_become_values(before, after, x@ * y@, v),
        (HeapData::LongInt(x), _) => lemma_repeats(before, after, b, times(x@), v),
        (_, HeapData::LongInt(y)) => lemma_repeats(before, after, a, times(y@), v),
        _ => {},
    }
}

/// Two payloads can be multiplied just if both are long integers, or one is and the other
/// one is a string, bytes, a list or a tuple.
pub proof fn only_sequences_and_integers_multiply<T: ResourceTracker>(
    before: HeapModel<T>,
    after: HeapModel<T>,
    a: HeapData,
    b: HeapData,
    r: Result<Option<Value>, RunError>,
)
    requires
        multiplies_values(before, after, a, b, r),
    ensures
        r == Ok::<Option<Value>, RunError>(None) <==> !({
            ||| a is LongInt && (b is LongInt || b is Str || b is Bytes || b is List || b is Tuple)
            ||| b is LongInt && (a is Str || a is Bytes || a is List || a is Tuple)
        }),
        r == Ok::<Option<Value>, RunError>(None) ==> after == before,
{
}

/// The remainder of two long integers is that of a floored division, and dividing by zero
/// is an error.
pub proof fn remainders_of_values_are_remainders<T: ResourceTracker>(
    before: HeapModel<T>,
    after: HeapModel<T>,
    a: HeapData,
    b: HeapData,
    r: Result<Dispatch<Option<Value>>, RunError>,
)
    requires
        before.wf(),
        before.entries.len() < usize::MAX,
        takes_modulo(before, after, a, b, r),
    ensures
        (a matches HeapData::LongInt(x) && b matches HeapData::LongInt(y)) ==> match r {
            Ok(Dispatch::Done(Some(v))) => ({
                let (x, y) = (a->LongInt_0@, b->LongInt_0@);
                &&& y != 0
                &&& integer_at(after.entries, v) matches Some(m) && {
                    &&& y > 0 ==> 0 <= m < y
                    &&& y < 0 ==> y < m <= 0
                    &&& exists|q: int| x == #[trigger] (q * y) + m
                }
            }),
            Ok(_) => false,
            Err(RunError::ZeroDivision) => b->LongInt_0@ == 0 && after == before,
            Err(e) => e is Resource && b->LongInt_0@ != 0,
        },
{
    if let (HeapData::LongInt(x), HeapData::LongInt(y)) = (a, b) {
        if y@ != 0 {
            remainders_have_the_sign_of_the_divisor(x@, y@);
            if let Ok(Dispatch::Done(Some(v))) = r {
                integers_become_values(before, after, floor_mod(x@, y@), v);
            }
        }
    }
}

/// An operation on two payloads is left to a type only where both have that type.
pub proof fn types_operate_on_their_own(a: HeapData, b: HeapData)
    ensures
        shared_type(a, b) matches Some(t) ==> a.spec_type() == t && b.spec_type() == t,
        subtracting_type(a, b) matches Some(t) ==> a.spec_type() == t && b.spec_type() == t,
        shared_type(a, b) is Some <==> a.spec_type() == b.spec_type() && (a is Str || a is Bytes || a is List
            || a is Tuple || a is Dict),
        subtracting_type(a, b) is Some <==> shared_type(a, b) is Some || (a.spec_type() == b.spec_type() && (a is PySet
            || a is FrozenSet)),
{
}

proof fn lemma_fewer_bits(n: nat, bits: nat)
    requires
        n < pow2(bits),
    ensures
        bit_length(n) <= bits,
{
    bit_lengths_are_logarithms(n);
    if bit_length(n) > bits {
        let high = (bit_length(n) - 1) as nat;
        if high > bits {
            vstd::arithmetic::power2::lemma_pow2_strictly_increases(bits, high);
        }
    }
}

/// The size that is asked for before two integers are multiplied is enough for their
/// product, as far as a `usize` goes.
pub proof fn products_fit_the_size_asked_for(a: int, b: int)
    requires
        bit_length(magnitude(a)) <= u64::MAX,
        bit_length(magnitude(b)) <= u64::MAX,
    ensures
        product_bytes(bit_length(magnitude(a)) as u64, bit_length(magnitude(b)) as u64) == usize::MAX || bit_length(
            magnitude(a * b),
        ) / 8 + 1 <= product_bytes(bit_length(magnitude(a)) as u64, bit_length(magnitude(b)) as u64),
{
    let (m, n) = (magnitude(a), magnitude(b));
    let (i, j) = (bit_length(m), bit_length(n));
    bit_lengths_are_logarithms(m);
    bit_lengths_are_logarithms(n);
    assert(magnitude(a * b) == m * n) by (nonlinear_arith)
        requires
            m == (if a < 0 { -a } else { a }),
            n == (if b < 0 { -b } else { b }),
            magnitude(a * b) == (if a * b < 0 { -(a * b) } else { a * b }),
    ;
    vstd::arithmetic::power2::lemma_pow2_adds(i, j);
    assert(m * n < pow2(i) * pow2(j)) by (nonlinear_arith)
        requires
            0 <= m < pow2(i),
            0 <= n < pow2(j),
    ;
    lemma_fewer_bits(m * n, i + j);
}

/// The size that is asked for before a list, a tuple or bytes are repeated is that of what
/// comes of it, as far as a `usize` goes.
pub proof fn repetitions_have_the_size_asked_for(data: HeapData, result: HeapData, n: nat)
    requires
        is_repeat(data, result, n),
        !(data is Str),
    ensures
        capped_product(items_size(data), n) == at_most_max(items_size(result)),
{
    lemma_rounds_of(data, result, n);
    match (data, result) {
        (HeapData::Bytes(x), HeapData::Bytes(y)) => {
            assert(x.value@.len() * n == n * x.value@.len()) by (nonlinear_arith);
        },
        (HeapData::List(x), HeapData::List(y)) => lemma_capped(x.items@.len(), n, vstd::layout::size_of::<Value>()),
        (HeapData::Tuple(x), HeapData::Tuple(y)) => lemma_capped(x@.len(), n, vstd::layout::size_of::<Value>()),
        _ => {},
    }
}

proof fn lemma_capped(len: nat, n: nat, size: nat)
    ensures
        capped_product(capped_product(len, size), n) == capped_product(n * len, size),
{
    assert((n * len) * size == (len * size) * n) by (nonlinear_arith);
    if len * size > usize::MAX {
        if n > 0 {
            assert((len * size) * n >= len * size) by (nonlinear_arith)
                requires
                    n > 0,
            ;
            assert(usize::MAX * n >= usize::MAX) by (nonlinear_arith)
                requires
                    n > 0,
            ;
        } else {
            assert((len * size) * n == 0) by (nonlinear_arith)
                requires
                    n == 0,
            ;
            assert(usize::MAX * n == 0) by (nonlinear_arith)
                requires
                    n == 0,
            ;
        }
    }
}

/// The sum and the difference of two long integers are what they are called. Other payloads
/// are left to the type of both, or cannot be added or subtracted.
pub proof fn sums_and_differences_are_right<T: ResourceTracker>(
    before: HeapModel<T>,
    after: HeapModel<T>,
    a: HeapData,
    b: HeapData,
    r: Result<Dispatch<Option<Value>>, ResourceError>,
)
    requires
        before.wf(),
        before.entries.len() < usize::MAX,
    ensures
        adds(before, after, a, b, r) ==> match r {
            Ok(Dispatch::Done(Some(v))) => {
                &&& a is LongInt && b is LongInt
                &&& integer_at(after.entries, v) == Some(a->LongInt_0@ + b->LongInt_0@)
            },
            Ok(Dispatch::Done(None)) => shared_type(a, b) is None && !(a is LongInt && b is LongInt) && after == before,
            Ok(Dispatch::Delegate(t)) => a.spec_type() == t && b.spec_type() == t && after == before,
            Err(_) => a is LongInt && b is LongInt,
        },
        subtracts(before, after, a, b, r) ==> match r {
            Ok(Dispatch::Done(Some(v))) => {
                &&& a is LongInt && b is LongInt
                &&& integer_at(after.entries, v) == Some(a->LongInt_0@ - b->LongInt_0@)
            },
            Ok(Dispatch::Done(None)) => subtracting_type(a, b) is None && !(a is LongInt && b is LongInt) && after
                == before,
            Ok(Dispatch::Delegate(t)) => a.spec_type() == t && b.spec_type() == t && after == before,
            Err(_) => a is LongInt && b is LongInt,
        },
{
    if let (HeapData::LongInt(x), HeapData::LongInt(y), Ok(Dispatch::Done(Some(v)))) = (a, b, r) {
        if adds(before, after, a, b, r) {
            integers_become_values(before, after, x@ + y@, v);
        }
        if subtracts(before, after, a, b, r) {
            integers_become_values(before, after, x@ - y@, v);
        }
    }
}

} // verus!
