//! Saturating counter arithmetic.
//!
//! Cumulative counters fold unbounded inputs, so every addition saturates
//! at its type's ceiling; the contracts give the exact value either way.

use vstd::prelude::*;

verus! {

/// `x` clipped to the `u64` range from above.
pub open spec fn sat64(x: int) -> int {
    if x > u64::MAX {
        u64::MAX as int
    } else {
        x
    }
}

/// `x` clipped to the `u32` range from above.
pub open spec fn sat32(x: int) -> int {
    if x > u32::MAX {
        u32::MAX as int
    } else {
        x
    }
}

/// `x` clipped to the `u128` range from above.
pub open spec fn sat128(x: int) -> int {
    if x > u128::MAX {
        u128::MAX as int
    } else {
        x
    }
}

pub fn sat_add_u64(a: u64, b: u64) -> (r: u64)
    ensures
        r == sat64(a + b),
{
    if a <= u64::MAX - b {
        a + b
    } else {
        u64::MAX
    }
}

pub fn sat_add_u32(a: u32, b: u32) -> (r: u32)
    ensures
        r == sat32(a + b),
{
    if a <= u32::MAX - b {
        a + b
    } else {
        u32::MAX
    }
}

pub fn sat_add_u128(a: u128, b: u128) -> (r: u128)
    ensures
        r == sat128(a + b),
{
    if a <= u128::MAX - b {
        a + b
    } else {
        u128::MAX
    }
}

} // verus!
