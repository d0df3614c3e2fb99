//! Arbitrary-precision integers from the `num_bigint` crate, as several
//! oracles use them in the middle of their formulas. Each operation the
//! oracles need is reached through one trusted wrapper whose contract states
//! the exact arithmetic over the number a value stands for, named by
//! `big_nat` (for `BigUint`) and `big_int` (for `BigInt`).

use vstd::arithmetic::power::pow;
use vstd::arithmetic::power2::pow2;
use vstd::prelude::*;

verus! {

#[verifier::external_type_specification]
#[verifier::external_body]
pub struct ExBigUint(num_bigint::BigUint);

#[verifier::external_type_specification]
#[verifier::external_body]
pub struct ExBigInt(num_bigint::BigInt);

/// The natural number a `BigUint` holds.
pub uninterp spec fn big_nat(b: num_bigint::BigUint) -> nat;

/// The integer a `BigInt` holds.
pub uninterp spec fn big_int(b: num_bigint::BigInt) -> int;

/// Relies on `BigUint: From<u64>`: the exact value, losslessly.
#[verifier::external_body]
pub(crate) fn big_from_u64(x: u64) -> (r: num_bigint::BigUint)
    ensures
        big_nat(r) == x as nat,
{
    num_bigint::BigUint::from(x)
}

/// Relies on `BigUint: From<u32>`: the exact value, losslessly.
#[verifier::external_body]
pub(crate) fn big_from_u32(x: u32) -> (r: num_bigint::BigUint)
    ensures
        big_nat(r) == x as nat,
{
    num_bigint::BigUint::from(x)
}

/// Relies on `BigUint: Clone`: an equal value.
#[verifier::external_body]
pub(crate) fn big_clone(a: &num_bigint::BigUint) -> (r: num_bigint::BigUint)
    ensures
        big_nat(r) == big_nat(*a),
{
    a.clone()
}

/// Relies on `Add for &BigUint`: exact addition.
#[verifier::external_body]
pub(crate) fn big_add(a: &num_bigint::BigUint, b: &num_bigint::BigUint) -> (r:
    num_bigint::BigUint)
    ensures
        big_nat(r) == big_nat(*a) + big_nat(*b),
{
    a + b
}

/// Relies on `Sub for &BigUint`: exact subtraction. The operation panics on
/// underflow, so the smaller value must be subtracted from the larger.
#[verifier::external_body]
pub(crate) fn big_sub(a: &num_bigint::BigUint, b: &num_bigint::BigUint) -> (r:
    num_bigint::BigUint)
    requires
        big_nat(*b) <= big_nat(*a),
    ensures
        big_nat(r) == big_nat(*a) - big_nat(*b),
{
    a - b
}

/// Relies on `Mul for &BigUint`: exact multiplication.
#[verifier::external_body]
pub(crate) fn big_mul(a: &num_bigint::BigUint, b: &num_bigint::BigUint) -> (r:
    num_bigint::BigUint)
    ensures
        big_nat(r) == big_nat(*a) * big_nat(*b),
{
    a * b
}

/// Relies on `Div for &BigUint`: the floor quotient. The operation panics
/// on a zero divisor, which is excluded here.
#[verifier::external_body]
pub(crate) fn big_div(a: &num_bigint::BigUint, b: &num_bigint::BigUint) -> (r:
    num_bigint::BigUint)
    requires
        big_nat(*b) != 0,
    ensures
        big_nat(r) == big_nat(*a) / big_nat(*b),
{
    a / b
}

/// Relies on `Div<u32> for &BigUint`: the floor quotient by a machine word.
/// The operation panics on a zero divisor, which is excluded here.
#[verifier::external_body]
pub(crate) fn big_div_u32(a: &num_bigint::BigUint, d: u32) -> (r: num_bigint::BigUint)
    requires
        d != 0,
    ensures
        big_nat(r) == big_nat(*a) / (d as nat),
{
    a / d
}

/// Relies on `Shl<u32> for &BigUint`: a left shift multiplies by the power
/// of two.
#[verifier::external_body]
pub(crate) fn big_shl(a: &num_bigint::BigUint, s: u32) -> (r: num_bigint::BigUint)
    ensures
        big_nat(r) == big_nat(*a) * pow2(s as nat),
{
    a << s
}

/// Relies on `BigUint::pow`: the exact power.
#[verifier::external_body]
pub(crate) fn big_pow(a: &num_bigint::BigUint, exponent: u32) -> (r: num_bigint::BigUint)
    ensures
        big_nat(r) == pow(big_nat(*a) as int, exponent as nat),
{
    a.pow(exponent)
}

/// Relies on `Ord for BigUint`: the order of the values held.
#[verifier::external_body]
pub(crate) fn big_gt(a: &num_bigint::BigUint, b: &num_bigint::BigUint) -> (r: bool)
    ensures
        r == (big_nat(*a) > big_nat(*b)),
{
    a > b
}

/// Relies on `BigUint::iter_u64_digits`: base-2^64 digits, least
/// significant first and none for zero, so the first digit or 0 is the
/// value's low 64-bit word.
#[verifier::external_body]
pub(crate) fn big_low_u64(a: &num_bigint::BigUint) -> (r: u64)
    ensures
        r as nat == big_nat(*a) % 0x1_0000_0000_0000_0000nat,
{
    a.iter_u64_digits().next().unwrap_or(0)
}

/// Relies on `u64: TryFrom<&BigUint>`: the value when it fits, an error
/// (mapped to the saturated maximum) when it does not.
#[verifier::external_body]
pub(crate) fn big_to_u64_sat(a: &num_bigint::BigUint) -> (r: u64)
    ensures
        big_nat(*a) <= u64::MAX ==> r as nat == big_nat(*a),
        big_nat(*a) > u64::MAX ==> r == u64::MAX,
{
    u64::try_from(a).unwrap_or(u64::MAX)
}

/// Relies on `u32: TryFrom<&BigUint>`: the value when it fits, an error
/// (mapped to the saturated maximum) when it does not.
#[verifier::external_body]
pub(crate) fn big_to_u32_sat(a: &num_bigint::BigUint) -> (r: u32)
    ensures
        big_nat(*a) <= u32::MAX ==> r as nat == big_nat(*a),
        big_nat(*a) > u32::MAX ==> r == u32::MAX,
{
    u32::try_from(a).unwrap_or(u32::MAX)
}

/// Relies on `BigInt: From<u32>`: the exact value, losslessly.
#[verifier::external_body]
pub(crate) fn bigint_from_u32(x: u32) -> (r: num_bigint::BigInt)
    ensures
        big_int(r) == x as int,
{
    num_bigint::BigInt::from(x)
}

/// Relies on `Add for &BigInt`: exact addition.
#[verifier::external_body]
pub(crate) fn bigint_add(a: &num_bigint::BigInt, b: &num_bigint::BigInt) -> (r:
    num_bigint::BigInt)
    ensures
        big_int(r) == big_int(*a) + big_int(*b),
{
    a + b
}

/// Relies on `Mul for &BigInt`: exact multiplication.
#[verifier::external_body]
pub(crate) fn bigint_mul(a: &num_bigint::BigInt, b: &num_bigint::BigInt) -> (r:
    num_bigint::BigInt)
    ensures
        big_int(r) == big_int(*a) * big_int(*b),
{
    a * b
}

/// Relies on `u64: TryFrom<BigInt>`: the value when it lies in the `u64`
/// range, an error (mapped to the saturated maximum) when it does not.
#[verifier::external_body]
pub(crate) fn bigint_to_u64_sat(a: num_bigint::BigInt) -> (r: u64)
    ensures
        0 <= big_int(a) <= u64::MAX ==> r == big_int(a),
        !(0 <= big_int(a) <= u64::MAX) ==> r == u64::MAX,
{
    u64::try_from(a).unwrap_or(u64::MAX)
}

} // verus!
