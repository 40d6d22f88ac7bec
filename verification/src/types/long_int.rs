//! Arbitrary precision integers.

use crate::text::decimal;
use num_bigint::{BigInt, Sign};
use num_integer::Integer;
use vstd::prelude::*;

verus! {

/// An integer of the `num-bigint` crate.
#[verifier::external_type_specification]
#[verifier::external_body]
pub struct ExBigInt(BigInt);

/// The integer that a `BigInt` stands for.
pub uninterp spec fn big_value(b: BigInt) -> int;

/// The fewest binary digits that a number can be written with.
pub open spec fn bit_length(n: nat) -> nat
    decreases n,
{
    if n == 0 { 0 } else { 1 + bit_length(n / 2) }
}

/// The absolute value of an integer.
pub open spec fn magnitude(n: int) -> nat {
    if n < 0 { (-n) as nat } else { n as nat }
}

/// The remainder of floored division: it has the sign of the divisor.
pub open spec fn floor_mod(a: int, b: int) -> int {
    if b > 0 { a % b } else { -((-a) % (-b)) }
}

/// `BigInt::clone`: the copy stands for the same integer.
#[verifier::external_body]
pub(crate) fn duplicate_big(b: &BigInt) -> (r: BigInt)
    ensures
        big_value(r) == big_value(*b),
{
    b.clone()
}

/// `BigInt::from(i64)`: stands for the given integer.
#[verifier::external_body]
fn big_from_i64(n: i64) -> (r: BigInt)
    ensures
        big_value(r) == n,
{
    BigInt::from(n)
}

/// The sum of two `BigInt`s.
#[verifier::external_body]
fn big_add(a: &BigInt, b: &BigInt) -> (r: BigInt)
    ensures
        big_value(r) == big_value(*a) + big_value(*b),
{
    a + b
}

/// The difference of two `BigInt`s.
#[verifier::external_body]
fn big_sub(a: &BigInt, b: &BigInt) -> (r: BigInt)
    ensures
        big_value(r) == big_value(*a) - big_value(*b),
{
    a - b
}

/// The product of two `BigInt`s.
#[verifier::external_body]
fn big_mul(a: &BigInt, b: &BigInt) -> (r: BigInt)
    ensures
        big_value(r) == big_value(*a) * big_value(*b),
{
    a * b
}

/// `Integer::mod_floor` of the `num-integer` crate for `BigInt`: the remainder
/// of floored division. It panics on a zero divisor.
#[verifier::external_body]
fn big_mod_floor(a: &BigInt, b: &BigInt) -> (r: BigInt)
    requires
        big_value(*b) != 0,
    ensures
        big_value(r) == floor_mod(big_value(*a), big_value(*b)),
{
    a.mod_floor(b)
}

/// `BigInt::bits`: the fewest bits that express the number without its sign.
#[verifier::external_body]
fn big_bits(b: &BigInt) -> (r: u64)
    ensures
        r == bit_length(magnitude(big_value(*b))),
{
    b.bits()
}

/// `BigInt::sign`: `Some(true)` for a negative number, `None` for zero.
#[verifier::external_body]
fn big_sign(b: &BigInt) -> (r: Option<bool>)
    ensures
        r is None <==> big_value(*b) == 0,
        r matches Some(negative) ==> (negative <==> big_value(*b) < 0),
{
    match b.sign() {
        Sign::Minus => Some(true),
        Sign::NoSign => None,
        Sign::Plus => Some(false),
    }
}

/// `i64::try_from(&BigInt)`: the number, where it fits.
#[verifier::external_body]
fn big_to_i64(b: &BigInt) -> (r: Option<i64>)
    ensures
        r is Some <==> i64::MIN <= big_value(*b) <= i64::MAX,
        r matches Some(n) ==> n == big_value(*b),
{
    i64::try_from(b).ok()
}

/// `usize::try_from(&BigInt)`: the number, where it fits.
#[verifier::external_body]
fn big_to_usize(b: &BigInt) -> (r: Option<usize>)
    ensures
        r is Some <==> 0 <= big_value(*b) <= usize::MAX,
        r matches Some(n) ==> n == big_value(*b),
{
    usize::try_from(b).ok()
}

/// `BigInt::eq`: are the two the same integer?
#[verifier::external_body]
fn big_eq(a: &BigInt, b: &BigInt) -> (r: bool)
    ensures
        r == (big_value(*a) == big_value(*b)),
{
    a == b
}

/// `BigInt::to_string`: the number in decimal.
#[verifier::external_body]
fn big_to_string(b: &BigInt) -> (r: String)
    ensures
        r@ == decimal(big_value(*b)),
{
    b.to_string()
}

/// An arbitrary precision integer.
pub struct LongInt {
    pub inner: BigInt,
}

impl View for LongInt {
    type V = int;

    open spec fn view(&self) -> int {
        big_value(self.inner)
    }
}

impl LongInt {
    /// Wraps a big integer.
    pub fn new(inner: BigInt) -> (r: LongInt)
        ensures
            r@ == big_value(inner),
            r.inner == inner,
    {
        LongInt { inner }
    }

    /// Makes a long integer from a machine integer.
    pub fn from_i64(n: i64) -> (r: LongInt)
        ensures
            r@ == n,
    {
        LongInt { inner: big_from_i64(n) }
    }

    /// Returns a copy.
    pub fn duplicate(&self) -> (r: LongInt)
        ensures
            r@ == self@,
    {
        LongInt { inner: duplicate_big(&self.inner) }
    }

    /// Returns the sum.
    pub fn plus(&self, other: &LongInt) -> (r: LongInt)
        ensures
            r@ == self@ + other@,
    {
        LongInt { inner: big_add(&self.inner, &other.inner) }
    }

    /// Returns the difference.
    pub fn minus(&self, other: &LongInt) -> (r: LongInt)
        ensures
            r@ == self@ - other@,
    {
        LongInt { inner: big_sub(&self.inner, &other.inner) }
    }

    /// Returns the product.
    pub fn times(&self, other: &LongInt) -> (r: LongInt)
        ensures
            r@ == self@ * other@,
    {
        LongInt { inner: big_mul(&self.inner, &other.inner) }
    }

    /// Returns the remainder of floored division.
    pub fn modulo(&self, other: &LongInt) -> (r: LongInt)
        requires
            other@ != 0,
        ensures
            r@ == floor_mod(self@, other@),
    {
        LongInt { inner: big_mod_floor(&self.inner, &other.inner) }
    }

    /// Returns how many bits the number has without its sign.
    pub fn bits(&self) -> (r: u64)
        ensures
            r == bit_length(magnitude(self@)),
    {
        big_bits(&self.inner)
    }

    /// Is the number zero?
    pub fn is_zero(&self) -> (r: bool)
        ensures
            r == (self@ == 0),
    {
        big_sign(&self.inner).is_none()
    }

    /// Is the number below zero?
    pub fn is_negative(&self) -> (r: bool)
        ensures
            r == (self@ < 0),
    {
        match big_sign(&self.inner) {
            Some(negative) => negative,
            None => false,
        }
    }

    /// Returns the number as an `i64`, where it fits.
    pub fn to_i64(&self) -> (r: Option<i64>)
        ensures
            r is Some <==> i64::MIN <= self@ <= i64::MAX,
            r matches Some(n) ==> n == self@,
    {
        big_to_i64(&self.inner)
    }

    /// Returns the number as a `usize`, where it fits.
    pub fn to_usize(&self) -> (r: Option<usize>)
        ensures
            r is Some <==> 0 <= self@ <= usize::MAX,
            r matches Some(n) ==> n == self@,
    {
        big_to_usize(&self.inner)
    }

    /// Are the two the same integer?
    pub fn same(&self, other: &LongInt) -> (r: bool)
        ensures
            r == (self@ == other@),
    {
        big_eq(&self.inner, &other.inner)
    }

    /// Writes the number in decimal.
    pub fn to_decimal(&self) -> (r: String)
        ensures
            r@ == decimal(self@),
    {
        big_to_string(&self.inner)
    }
}

} // verus!
