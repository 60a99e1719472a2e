//! Saturating arithmetic used by every accumulator in the summary.
//!
//! All durations and timestamps are unsigned integers in microseconds.
//! Accumulation never panics and never wraps: sums clamp at the top of the
//! integer range, and the self-time subtraction clamps at zero.

use vstd::prelude::*;

verus! {

/// `a + b` clamped to `u64::MAX`.
pub open spec fn spec_sat_add_u64(a: u64, b: u64) -> u64 {
    if a + b > u64::MAX {
        u64::MAX
    } else {
        (a + b) as u64
    }
}

/// `a + b` clamped to `u128::MAX`.
pub open spec fn spec_sat_add_u128(a: u128, b: u128) -> u128 {
    if a + b > u128::MAX {
        u128::MAX
    } else {
        (a + b) as u128
    }
}

/// `a - b` clamped to zero.
pub open spec fn spec_sat_sub_u64(a: u64, b: u64) -> u64 {
    if a >= b {
        (a - b) as u64
    } else {
        0
    }
}

/// `a + b` clamped to `usize::MAX`.
pub open spec fn spec_sat_add_usize(a: usize, b: usize) -> usize {
    if a + b > usize::MAX {
        usize::MAX
    } else {
        (a + b) as usize
    }
}

pub fn saturating_add_u64(a: u64, b: u64) -> (r: u64)
    ensures
        r == spec_sat_add_u64(a, b),
{
    if a > u64::MAX - b {
        u64::MAX
    } else {
        a + b
    }
}

pub fn saturating_add_u128(a: u128, b: u128) -> (r: u128)
    ensures
        r == spec_sat_add_u128(a, b),
{
    if a > u128::MAX - b {
        u128::MAX
    } else {
        a + b
    }
}

pub fn saturating_sub_u64(a: u64, b: u64) -> (r: u64)
    ensures
        r == spec_sat_sub_u64(a, b),
{
    if a >= b {
        a - b
    } else {
        0
    }
}

pub fn saturating_add_usize(a: usize, b: usize) -> (r: usize)
    ensures
        r == spec_sat_add_usize(a, b),
{
    if a > usize::MAX - b {
        usize::MAX
    } else {
        a + b
    }
}

} // verus!
