//! Saturating integer arithmetic with its exact statement.
use vstd::prelude::*;

verus! {

/// The value clamped into the `i32` range.
pub open spec fn spec_clamp_i32(x: int) -> i32 {
    if x < i32::MIN {
        i32::MIN
    } else if x > i32::MAX {
        i32::MAX
    } else {
        x as i32
    }
}

/// `a + b`, saturated at the bounds of `i32`.
pub fn sat_add_i32(a: i32, b: i32) -> (r: i32)
    ensures
        r == spec_clamp_i32(a + b),
{
    let s: i64 = a as i64 + b as i64;
    if s < i32::MIN as i64 {
        i32::MIN
    } else if s > i32::MAX as i64 {
        i32::MAX
    } else {
        s as i32
    }
}

/// `a - b`, saturated at the bounds of `i32`.
pub fn sat_sub_i32(a: i32, b: i32) -> (r: i32)
    ensures
        r == spec_clamp_i32(a - b),
{
    let s: i64 = a as i64 - b as i64;
    if s < i32::MIN as i64 {
        i32::MIN
    } else if s > i32::MAX as i64 {
        i32::MAX
    } else {
        s as i32
    }
}

/// `a * b`, saturated at the bounds of `i32`.
pub fn sat_mul_i32(a: i32, b: i32) -> (r: i32)
    ensures
        r == spec_clamp_i32(a * b),
{
    assert(-0x8000_0000 * 0x8000_0000 <= a * b <= 0x8000_0000 * 0x8000_0000) by (nonlinear_arith)
        requires
            -0x8000_0000 <= a < 0x8000_0000,
            -0x8000_0000 <= b < 0x8000_0000,
    ;
    let s: i64 = a as i64 * b as i64;
    if s < i32::MIN as i64 {
        i32::MIN
    } else if s > i32::MAX as i64 {
        i32::MAX
    } else {
        s as i32
    }
}

/// The `usize` value `n * 2`, or `usize::MAX` when that overflows.
pub open spec fn spec_sat_double(n: usize) -> int {
    if 2 * n > usize::MAX {
        usize::MAX as int
    } else {
        2 * n
    }
}

/// `n * 2`, saturated at `usize::MAX`.
pub fn sat_double_usize(n: usize) -> (r: usize)
    ensures
        r == spec_sat_double(n),
{
    if n > usize::MAX / 2 {
        usize::MAX
    } else {
        n * 2
    }
}

} // verus!
