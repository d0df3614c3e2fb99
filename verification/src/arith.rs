//! Saturating arithmetic: the uniform error-avoidance policy shared by every
//! oracle. Addition, subtraction and multiplication clamp to a boundary value
//! of the representation instead of wrapping or trapping, and division by
//! zero yields 0, so every downstream formula is a total function that
//! degrades to a boundary value rather than propagating an error.

use vstd::prelude::*;

verus! {

/// Value of `u64` addition that clamps to `u64::MAX` on overflow.
pub open spec fn sat_add_u64(a: int, b: int) -> int {
    if a + b > u64::MAX {
        u64::MAX as int
    } else {
        a + b
    }
}

/// Value of `u64` subtraction that clamps to 0 on underflow.
pub open spec fn sat_sub_u64(a: int, b: int) -> int {
    if a - b < 0 {
        0
    } else {
        a - b
    }
}

/// Value of `u64` multiplication that clamps to `u64::MAX` on overflow.
pub open spec fn sat_mul_u64(a: int, b: int) -> int {
    if a * b > u64::MAX {
        u64::MAX as int
    } else {
        a * b
    }
}

/// Value of unsigned division that yields 0 for a zero divisor.
pub open spec fn div0_u64(a: int, b: int) -> int {
    if b == 0 {
        0
    } else {
        a / b
    }
}

/// Value of `u32` addition that clamps to `u32::MAX` on overflow.
pub open spec fn sat_add_u32(a: int, b: int) -> int {
    if a + b > u32::MAX {
        u32::MAX as int
    } else {
        a + b
    }
}

/// Value of `u32` subtraction that clamps to 0 on underflow.
pub open spec fn sat_sub_u32(a: int, b: int) -> int {
    if a - b < 0 {
        0
    } else {
        a - b
    }
}

/// Value of `u32` multiplication that clamps to `u32::MAX` on overflow.
pub open spec fn sat_mul_u32(a: int, b: int) -> int {
    if a * b > u32::MAX {
        u32::MAX as int
    } else {
        a * b
    }
}

/// Rust's truncating (round toward zero) quotient of `a` by `b`, for b != 0:
/// the quotient of the magnitudes, negated when the signs differ.
pub open spec fn trunc_div(a: int, b: int) -> int {
    if a == 0 {
        0
    } else if a > 0 && b > 0 {
        a / b
    } else if a < 0 && b < 0 {
        (a * -1) / (b * -1)
    } else if a < 0 {
        ((a * -1) / b) * -1
    } else {
        (a / (b * -1)) * -1
    }
}

/// Truncating division cannot leave the symmetric range of its dividend's
/// type, except on the one pair (`MIN`, -1) that negates the minimum.
proof fn lemma_trunc_div_bounds(x: int, d: int, bound: int)
    requires
        d != 0,
        bound >= 2,
        -bound <= x < bound,
        !(x == -bound && d == -1),
    ensures
        -bound <= trunc_div(x, d) < bound,
{
    if x == 0 {
    } else if x > 0 && d > 0 {
        vstd::arithmetic::div_mod::lemma_div_pos_is_pos(x, d);
        vstd::arithmetic::div_mod::lemma_div_nonincreasing(x, d);
    } else if x < 0 && d < 0 {
        vstd::arithmetic::div_mod::lemma_div_pos_is_pos(x * -1, d * -1);
        if d == -1 {
            vstd::arithmetic::div_mod::lemma_div_basics(x * -1);
        } else {
            vstd::arithmetic::div_mod::lemma_div_is_ordered_by_denominator(x * -1, 2, d * -1);
            vstd::arithmetic::div_mod::lemma_div_is_ordered(x * -1, bound, 2);
        }
    } else if x < 0 {
        vstd::arithmetic::div_mod::lemma_div_pos_is_pos(x * -1, d);
        vstd::arithmetic::div_mod::lemma_div_nonincreasing(x * -1, d);
    } else {
        vstd::arithmetic::div_mod::lemma_div_pos_is_pos(x, d * -1);
        vstd::arithmetic::div_mod::lemma_div_nonincreasing(x, d * -1);
    }
}

/// Value of signed `i64` addition that yields `i64::MAX` whenever the exact
/// sum is unrepresentable (in either direction).
pub open spec fn sat_add_i64(a: int, b: int) -> int {
    if i64::MIN <= a + b <= i64::MAX {
        a + b
    } else {
        i64::MAX as int
    }
}

/// Value of signed `i64` subtraction that yields `i64::MIN` whenever the
/// exact difference is unrepresentable (in either direction).
pub open spec fn sat_sub_i64(a: int, b: int) -> int {
    if i64::MIN <= a - b <= i64::MAX {
        a - b
    } else {
        i64::MIN as int
    }
}

/// Value of signed `i64` multiplication that yields `i64::MAX` whenever the
/// exact product is unrepresentable (in either direction).
pub open spec fn sat_mul_i64(a: int, b: int) -> int {
    if i64::MIN <= a * b <= i64::MAX {
        a * b
    } else {
        i64::MAX as int
    }
}

/// Value of signed division that yields 0 for a zero divisor and otherwise
/// truncates toward zero.
pub open spec fn div0_i64(a: int, b: int) -> int {
    if b == 0 {
        0
    } else {
        trunc_div(a, b)
    }
}

/// Value of signed `i32` addition that yields `i32::MAX` whenever the exact
/// sum is unrepresentable (in either direction).
pub open spec fn sat_add_i32(a: int, b: int) -> int {
    if i32::MIN <= a + b <= i32::MAX {
        a + b
    } else {
        i32::MAX as int
    }
}

/// Value of signed `i32` subtraction that yields `i32::MIN` whenever the
/// exact difference is unrepresentable (in either direction).
pub open spec fn sat_sub_i32(a: int, b: int) -> int {
    if i32::MIN <= a - b <= i32::MAX {
        a - b
    } else {
        i32::MIN as int
    }
}

/// Value of signed `i32` multiplication that yields `i32::MAX` whenever the
/// exact product is unrepresentable (in either direction).
pub open spec fn sat_mul_i32(a: int, b: int) -> int {
    if i32::MIN <= a * b <= i32::MAX {
        a * b
    } else {
        i32::MAX as int
    }
}

pub fn safe_add_u64(a: u64, b: u64) -> (r: u64)
    ensures
        r == sat_add_u64(a as int, b as int),
{
    a.checked_add(b).unwrap_or(u64::MAX)
}

pub fn safe_sub_u64(a: u64, b: u64) -> (r: u64)
    ensures
        r == sat_sub_u64(a as int, b as int),
{
    a.checked_sub(b).unwrap_or(0)
}

pub fn safe_mul_u64(a: u64, b: u64) -> (r: u64)
    ensures
        r == sat_mul_u64(a as int, b as int),
{
    a.checked_mul(b).unwrap_or(u64::MAX)
}

pub fn safe_div_u64(a: u64, b: u64) -> (r: u64)
    ensures
        r == div0_u64(a as int, b as int),
{
    if b == 0 {
        0
    } else {
        a / b
    }
}

pub fn safe_add_u32(a: u32, b: u32) -> (r: u32)
    ensures
        r == sat_add_u32(a as int, b as int),
{
    a.checked_add(b).unwrap_or(u32::MAX)
}

pub fn safe_sub_u32(a: u32, b: u32) -> (r: u32)
    ensures
        r == sat_sub_u32(a as int, b as int),
{
    a.checked_sub(b).unwrap_or(0)
}

pub fn safe_mul_u32(a: u32, b: u32) -> (r: u32)
    ensures
        r == sat_mul_u32(a as int, b as int),
{
    a.checked_mul(b).unwrap_or(u32::MAX)
}

pub fn safe_div_u32(a: u32, b: u32) -> (r: u32)
    ensures
        r == div0_u64(a as int, b as int),
{
    if b == 0 {
        0
    } else {
        a / b
    }
}

pub fn safe_add_i64(a: i64, b: i64) -> (r: i64)
    ensures
        r == sat_add_i64(a as int, b as int),
{
    a.checked_add(b).unwrap_or(i64::MAX)
}

pub fn safe_sub_i64(a: i64, b: i64) -> (r: i64)
    ensures
        r == sat_sub_i64(a as int, b as int),
{
    a.checked_sub(b).unwrap_or(i64::MIN)
}

pub fn safe_mul_i64(a: i64, b: i64) -> (r: i64)
    ensures
        r == sat_mul_i64(a as int, b as int),
{
    a.checked_mul(b).unwrap_or(i64::MAX)
}

/// Division never traps here: a zero divisor yields 0. The one input pair on
/// which Rust's own division would overflow is excluded.
pub fn safe_div_i64(a: i64, b: i64) -> (r: i64)
    requires
        !(a == i64::MIN && b == -1),
    ensures
        r == div0_i64(a as int, b as int),
{
    if b == 0 {
        0
    } else {
        proof {
            lemma_trunc_div_bounds(a as int, b as int, 0x8000_0000_0000_0000);
        }
        a.checked_div(b).unwrap_or(0)
    }
}

pub fn safe_add_i32(a: i32, b: i32) -> (r: i32)
    ensures
        r == sat_add_i32(a as int, b as int),
{
    a.checked_add(b).unwrap_or(i32::MAX)
}

pub fn safe_sub_i32(a: i32, b: i32) -> (r: i32)
    ensures
        r == sat_sub_i32(a as int, b as int),
{
    a.checked_sub(b).unwrap_or(i32::MIN)
}

pub fn safe_mul_i32(a: i32, b: i32) -> (r: i32)
    ensures
        r == sat_mul_i32(a as int, b as int),
{
    a.checked_mul(b).unwrap_or(i32::MAX)
}

/// Division never traps here: a zero divisor yields 0. The one input pair on
/// which Rust's own division would overflow is excluded.
pub fn safe_div_i32(a: i32, b: i32) -> (r: i32)
    requires
        !(a == i32::MIN && b == -1),
    ensures
        r == div0_i64(a as int, b as int),
{
    if b == 0 {
        0
    } else {
        proof {
            lemma_trunc_div_bounds(a as int, b as int, 0x8000_0000);
        }
        a.checked_div(b).unwrap_or(0)
    }
}

/// `u64` addition clamping to `u64::MAX`, under the short name some oracles
/// use for their 64-bit working type.
pub fn safe_add(a: u64, b: u64) -> (r: u64)
    ensures
        r == sat_add_u64(a as int, b as int),
{
    a.checked_add(b).unwrap_or(u64::MAX)
}

/// `u64` subtraction clamping to 0, under the short name some oracles use.
pub fn safe_sub(a: u64, b: u64) -> (r: u64)
    ensures
        r == sat_sub_u64(a as int, b as int),
{
    a.checked_sub(b).unwrap_or(0)
}

/// `u64` multiplication clamping to `u64::MAX`, under the short name some
/// oracles use.
pub fn safe_mul(a: u64, b: u64) -> (r: u64)
    ensures
        r == sat_mul_u64(a as int, b as int),
{
    a.checked_mul(b).unwrap_or(u64::MAX)
}

/// `u64` division yielding 0 for a zero divisor, under the short name some
/// oracles use.
pub fn safe_div(a: u64, b: u64) -> (r: u64)
    ensures
        r == div0_u64(a as int, b as int),
{
    if b == 0 {
        0
    } else {
        a / b
    }
}

} // verus!
