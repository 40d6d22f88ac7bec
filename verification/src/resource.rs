//! Resource limits: what a heap asks before it grows and tells when it shrinks.

use vstd::prelude::*;

verus! {

/// Why an operation was refused by a [`ResourceTracker`].
#[derive(Debug, Clone, Copy, PartialEq, Eq, Structural)]
pub enum ResourceError {
    /// Too many allocations.
    Allocation { limit: usize, count: usize },
    /// Too much memory in use.
    Memory { limit: usize, used: usize },
    /// The time limit has passed.
    Time { limit_ms: u64, elapsed_ms: u64 },
    /// Calls or data are nested too deeply.
    Recursion { limit: usize, depth: usize },
}

/// Decides whether the interpreter may go on using resources.
///
/// Every method comes with a spec function that says which outcomes an
/// implementation allows, so that what a heap hands to its tracker, and what it
/// does with the answer, can be stated for all trackers at once.
pub trait ResourceTracker: Sized {
    /// May `on_allocate(size)` turn `self` into `after` and answer `r`?
    spec fn allocate_outcome(self, size: usize, after: Self, r: Result<(), ResourceError>) -> bool;

    /// May `on_free(size)` turn `self` into `after`?
    spec fn free_outcome(self, size: usize, after: Self) -> bool;

    /// May `check_time` answer `r`?
    spec fn time_outcome(self, r: Result<(), ResourceError>) -> bool;

    /// The answer of `check_recursion_depth(depth)`.
    spec fn depth_outcome(self, depth: usize) -> Result<(), ResourceError>;

    /// The answer of `check_large_result(bytes)`.
    spec fn large_result_outcome(self, bytes: usize) -> Result<(), ResourceError>;

    /// Called before `size` bytes are allocated; an error refuses the allocation.
    fn on_allocate(&mut self, size: usize) -> (r: Result<(), ResourceError>)
        ensures
            old(self).allocate_outcome(size, *final(self), r),
    ;

    /// Called when `size` bytes have been freed.
    fn on_free(&mut self, size: usize)
        ensures
            old(self).free_outcome(size, *final(self)),
    ;

    /// Checks whether the time limit has passed.
    fn check_time(&self) -> (r: Result<(), ResourceError>)
        ensures
            self.time_outcome(r),
    ;

    /// Checks whether one more level of recursion is allowed at `depth`.
    fn check_recursion_depth(&self, depth: usize) -> (r: Result<(), ResourceError>)
        ensures
            r == self.depth_outcome(depth),
    ;

    /// Checks whether a single result of about `bytes` bytes is allowed.
    fn check_large_result(&self, bytes: usize) -> (r: Result<(), ResourceError>)
        ensures
            r == self.large_result_outcome(bytes),
    ;
}

/// A tracker that never refuses anything.
#[derive(Debug, Clone, Copy, PartialEq, Eq, Structural)]
pub struct NoLimitTracker;

impl ResourceTracker for NoLimitTracker {
    open spec fn allocate_outcome(self, size: usize, after: Self, r: Result<(), ResourceError>) -> bool {
        after == self && r is Ok
    }

    open spec fn free_outcome(self, size: usize, after: Self) -> bool {
        after == self
    }

    open spec fn time_outcome(self, r: Result<(), ResourceError>) -> bool {
        r is Ok
    }

    open spec fn depth_outcome(self, depth: usize) -> Result<(), ResourceError> {
        Ok(())
    }

    open spec fn large_result_outcome(self, bytes: usize) -> Result<(), ResourceError> {
        Ok(())
    }

    fn on_allocate(&mut self, size: usize) -> (r: Result<(), ResourceError>) {
        Ok(())
    }

    fn on_free(&mut self, size: usize) {
    }

    fn check_time(&self) -> (r: Result<(), ResourceError>) {
        Ok(())
    }

    fn check_recursion_depth(&self, depth: usize) -> (r: Result<(), ResourceError>) {
        Ok(())
    }

    fn check_large_result(&self, bytes: usize) -> (r: Result<(), ResourceError>) {
        Ok(())
    }
}

/// `a + b`, or the largest `usize` where the sum does not fit.
pub open spec fn capped_sum(a: nat, b: nat) -> nat {
    if a + b > usize::MAX { usize::MAX as nat } else { a + b }
}

/// `a * b`, or the largest `usize` where the product does not fit.
pub open spec fn capped_product(a: nat, b: nat) -> nat {
    if a * b > usize::MAX { usize::MAX as nat } else { a * b }
}

/// Returns `a + b`, capped at the largest `usize`.
pub fn add_capped(a: usize, b: usize) -> (r: usize)
    ensures
        r == capped_sum(a as nat, b as nat),
{
    match a.checked_add(b) {
        Some(r) => r,
        None => usize::MAX,
    }
}

/// Returns `a * b`, capped at the largest `usize`.
pub fn mul_capped(a: usize, b: usize) -> (r: usize)
    ensures
        r == capped_product(a as nat, b as nat),
{
    match a.checked_mul(b) {
        Some(r) => r,
        None => usize::MAX,
    }
}

/// Asks whether a sequence of `item_size` bytes may be repeated `count` times.
pub fn check_repeat_size<T: ResourceTracker>(item_size: usize, count: usize, tracker: &T) -> (r: Result<
    (),
    ResourceError,
>)
    ensures
        r == tracker.large_result_outcome(capped_product(item_size as nat, count as nat) as usize),
{
    tracker.check_large_result(mul_capped(item_size, count))
}

/// The number of bytes in a product of integers with the given bit lengths.
pub open spec fn product_bytes(a_bits: u64, b_bits: u64) -> nat {
    if (a_bits + b_bits) / 8 + 1 > usize::MAX {
        usize::MAX as nat
    } else {
        ((a_bits + b_bits) / 8 + 1) as nat
    }
}

/// Asks whether integers of `a_bits` and `b_bits` bits may be multiplied.
pub fn check_mult_size<T: ResourceTracker>(a_bits: u64, b_bits: u64, tracker: &T) -> (r: Result<(), ResourceError>)
    ensures
        r == tracker.large_result_outcome(product_bytes(a_bits, b_bits) as usize),
{
    let bytes: u128 = (a_bits as u128 + b_bits as u128) / 8 + 1;
    if bytes > usize::MAX as u128 {
        tracker.check_large_result(usize::MAX)
    } else {
        tracker.check_large_result(bytes as usize)
    }
}

} // verus!
