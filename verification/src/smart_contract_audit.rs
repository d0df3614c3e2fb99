//! Smart-contract-audit oracle: a coverage bitmask, gas usage and function
//! count drive an audit-complexity figure and a derived score, computed in
//! arbitrary precision before their low word is folded with assorted bit
//! measurements. Insufficient coverage triggers a bounded fallback that
//! shrinks coverage, gas and function count and retries.

use vstd::arithmetic::power::pow;
use vstd::prelude::*;
use vstd::std_specs::bits::u32_leading_zeros;

use crate::arith::{sat_add_u64, sat_mul_u64, sat_sub_u32};
use crate::arith::{safe_add_u64, safe_div_u64, safe_mul_u64, safe_sub_u32};
use crate::bignum::{big_add, big_div, big_from_u32, big_from_u64, big_low_u64, big_mul, big_nat,
    big_pow};
use crate::bits::{count_ones_u32, lemma_popcount_le, popcount, rotr64_val, rotr_u64, xor_all};

verus! {

/// Coverage suffices when every bit of `required_mask` is covered.
pub fn check_minimum_coverage(coverage_flags: u32, required_mask: u32) -> (r: bool)
    ensures
        r == ((coverage_flags & required_mask) == required_mask),
{
    (coverage_flags & required_mask) == required_mask
}

/// Full coverage means every single bit is set.
pub fn check_full_coverage(coverage_flags: u32) -> (r: bool)
    ensures
        r == (coverage_flags == u32::MAX),
{
    coverage_flags == u32::MAX
}

/// Value of the audit complexity figure:
/// `(coverage + 1) * gas^3 * (functions + 7) + extra^2`, exactly.
pub open spec fn audit_complexity_val(
    coverage_flags: u32,
    total_gas_used: u64,
    function_count: u32,
    extra_factor: u32,
) -> nat {
    ((coverage_flags as nat + 1) * ((total_gas_used as nat * total_gas_used as nat)
        * total_gas_used as nat)) * (function_count as nat + 7) + extra_factor as nat
        * extra_factor as nat
}

/// Computes the audit complexity figure in arbitrary precision.
pub fn compute_audit_complexity(
    coverage_flags: u32,
    total_gas_used: u64,
    function_count: u32,
    extra_factor: u32,
) -> (r: num_bigint::BigUint)
    ensures
        big_nat(r) == audit_complexity_val(
            coverage_flags,
            total_gas_used,
            function_count,
            extra_factor,
        ),
{
    let coverage_big = big_from_u32(coverage_flags);
    let gas_big = big_from_u64(total_gas_used);
    let fnc_big = big_from_u32(function_count);
    let extra_big = big_from_u32(extra_factor);
    let one = big_from_u32(1);
    let seven = big_from_u32(7);
    let gas_sq = big_mul(&gas_big, &gas_big);
    let gas_cubed = big_mul(&gas_sq, &gas_big);
    let coverage_adjusted = big_add(&coverage_big, &one);
    let fn_count_adjusted = big_add(&fnc_big, &seven);
    let partial = big_mul(&coverage_adjusted, &gas_cubed);
    let intermediate = big_mul(&partial, &fn_count_adjusted);
    let extra_adjusted = big_pow(&extra_big, 2);
    proof {
        reveal(pow);
        vstd::arithmetic::power::lemma_pow1(extra_factor as int);
        assert(pow(extra_factor as int, 2) == extra_factor as int * extra_factor as int);
    }
    big_add(&intermediate, &extra_adjusted)
}

/// Value of the audit score: the complexity figure divided by the summed
/// (saturating) scale, or 0 when the scale is 0.
pub open spec fn audit_score_val(
    complexity: nat,
    coverage_flags: u32,
    function_count: u32,
    threshold: u64,
) -> nat {
    let denominator = sat_add_u64(
        coverage_flags as int + function_count as int,
        threshold as int,
    );
    if denominator == 0 {
        0
    } else {
        complexity / denominator as nat
    }
}

/// Scales the complexity figure down by coverage, function count and a
/// threshold; the sum saturates rather than wrapping, and a zero scale
/// yields a zero score.
pub fn compute_audit_score(
    complexity_value: &num_bigint::BigUint,
    coverage_flags: u32,
    function_count: u32,
    threshold: u64,
) -> (r: num_bigint::BigUint)
    ensures
        big_nat(r) == audit_score_val(
            big_nat(*complexity_value),
            coverage_flags,
            function_count,
            threshold,
        ),
{
    let denominator_val = safe_add_u64(coverage_flags as u64 + function_count as u64, threshold);
    if denominator_val == 0 {
        return big_from_u32(0);
    }
    let denominator = big_from_u64(denominator_val);
    big_div(complexity_value, &denominator)
}

/// Value of the bit-mixing fold of a large figure with the coverage mask,
/// gas usage and function count.
pub open spec fn combine_bitops_val(
    big_val: nat,
    coverage_flags: u32,
    total_gas_used: u64,
    function_count: u32,
) -> u64 {
    let lower_64 = (big_val % 0x1_0000_0000_0000_0000nat) as u64;
    let div_result = lower_64 / 5;
    let popc = popcount(coverage_flags as nat) as u64;
    let leading_zeros = u32_leading_zeros(coverage_flags) as u64;
    let ror_bits = coverage_flags & 0xFF;
    let rotated = rotr64_val(lower_64, ror_bits);
    let x = rotated ^ popc;
    let y = (leading_zeros | function_count as u64) ^ div_result;
    (x ^ y) ^ total_gas_used
}

/// Folds a large figure's low word with a popcount, a leading-zero count,
/// a data-dependent rotation and the gas usage.
pub fn combine_biguint_with_bitops(
    big_val: &num_bigint::BigUint,
    coverage_flags: u32,
    total_gas_used: u64,
    function_count: u32,
) -> (r: u64)
    ensures
        r == combine_bitops_val(big_nat(*big_val), coverage_flags, total_gas_used, function_count),
{
    let lower_64 = big_low_u64(big_val);
    let div_result = safe_div_u64(lower_64, 5);
    let popc = count_ones_u32(coverage_flags) as u64;
    proof {
        lemma_popcount_le(coverage_flags as nat);
    }
    let leading_zeros = coverage_flags.leading_zeros() as u64;
    let ror_bits = coverage_flags & 0xFF;
    let rotated = rotr_u64(lower_64, ror_bits);
    let x = rotated ^ popc;
    let y = (leading_zeros | function_count as u64) ^ div_result;
    let final_xor = x ^ y;
    final_xor ^ total_gas_used
}

/// The value of the audit fallback: coverage shifted down two bits, an
/// eighth of the gas and three fewer functions, scored and folded when the
/// reduced coverage still meets the mask, with the product against the
/// multiplier saturating; otherwise recurse until the budget runs out.
pub open spec fn partial_fallback_audit_val(
    coverage_flags: u32,
    total_gas_used: u64,
    function_count: u32,
    required_mask: u32,
    attempts: u32,
    multiplier: u64,
) -> u64
    decreases attempts,
{
    if attempts == 0 {
        0
    } else {
        let halved_coverage = coverage_flags >> 2;
        let quarter_gas = total_gas_used / 8;
        let reduced_fn_count = sat_sub_u32(function_count as int, 3) as u32;
        if (halved_coverage & required_mask) == required_mask {
            let comp = audit_complexity_val(halved_coverage, quarter_gas, reduced_fn_count, 2);
            let score = audit_score_val(comp, halved_coverage, reduced_fn_count, 1);
            let combined = combine_bitops_val(score, halved_coverage, quarter_gas,
                reduced_fn_count);
            sat_mul_u64(combined as int, multiplier as int) as u64
        } else {
            partial_fallback_audit_val(
                halved_coverage,
                quarter_gas,
                reduced_fn_count,
                required_mask,
                (attempts - 1) as u32,
                multiplier,
            )
        }
    }
}

/// Fallback when coverage is insufficient: aggressively reduce coverage,
/// gas and function count and retry; a successful retry's fold is scaled by
/// the multiplier (saturating), and an exhausted budget yields the
/// sentinel 0.
pub fn partial_fallback_audit(
    coverage_flags: u32,
    total_gas_used: u64,
    function_count: u32,
    required_mask: u32,
    attempts: u32,
    multiplier: u64,
) -> (r: u64)
    ensures
        r == partial_fallback_audit_val(
            coverage_flags,
            total_gas_used,
            function_count,
            required_mask,
            attempts,
            multiplier,
        ),
        attempts == 0 ==> r == 0,
    decreases attempts,
{
    if attempts == 0 {
        return 0;
    }
    let halved_coverage = coverage_flags >> 2;
    let quarter_gas = safe_div_u64(total_gas_used, 8);
    let reduced_fn_count = safe_sub_u32(function_count, 3);
    if check_minimum_coverage(halved_coverage, required_mask) {
        let comp_big = compute_audit_complexity(halved_coverage, quarter_gas, reduced_fn_count, 2);
        let score_big = compute_audit_score(&comp_big, halved_coverage, reduced_fn_count, 1);
        let combined_result = combine_biguint_with_bitops(
            &score_big,
            halved_coverage,
            quarter_gas,
            reduced_fn_count,
        );
        safe_mul_u64(combined_result, multiplier)
    } else {
        partial_fallback_audit(
            halved_coverage,
            quarter_gas,
            reduced_fn_count,
            required_mask,
            attempts - 1,
            multiplier,
        )
    }
}

/// Folds a batch of partial results by exclusive-or and inverts every bit
/// of the outcome.
pub fn combine_results_64(values: &[u64]) -> (r: u64)
    ensures
        r == xor_all(values@) ^ 0xffff_ffff_ffff_ffffu64,
{
    let out = crate::bits::xor_fold_u64(values);
    out ^ u64::MAX
}

} // verus!
