//! Regulatory-compliance oracle: a bitmask of compliance flags gates the
//! computation of a carbon-offset score and a baseline check, both carried
//! out in arbitrary precision before their low words are folded together.
//! When the required flag bits are missing, a bounded fallback halves the
//! measured emissions or the carbon credits and retries.

use vstd::arithmetic::power2::pow2;
use vstd::prelude::*;

use crate::arith::safe_div_u64;
use crate::bignum::{big_add, big_from_u32, big_from_u64, big_gt, big_low_u64, big_mul, big_nat,
    big_shl};
use crate::bits::{count_ones_u32, lemma_popcount_le, popcount, rotl32_val, rotl64_val, rotl_u32,
    rotl_u64, xor_all};

verus! {

/// Compliance holds when every bit of `required_mask` is set in the flags.
pub fn check_regulatory_flags(compliance_flags: u32, required_mask: u32) -> (r: bool)
    ensures
        r == ((compliance_flags & required_mask) == required_mask),
{
    (compliance_flags & required_mask) == required_mask
}

/// Number of set compliance bits.
pub fn compliance_popcount(compliance_flags: u32) -> (r: u32)
    ensures
        r == popcount(compliance_flags as nat),
{
    let count = count_ones_u32(compliance_flags);
    count
}

/// Value of the flag transform: rotate left by 13, shift down two, fold in
/// a fixed partial mask, and difference against the original flags.
pub open spec fn transform_compliance_val(compliance_flags: u32) -> u32 {
    let rotated = rotl32_val(compliance_flags, 13);
    let shifted = rotated >> 2;
    let combined = shifted | 0b10101010;
    combined ^ compliance_flags
}

/// Rotates and folds the compliance flags into a derived mask.
pub fn transform_compliance_flags(compliance_flags: u32) -> (r: u32)
    ensures
        r == transform_compliance_val(compliance_flags),
{
    let rotated = rotl_u32(compliance_flags, 13);
    let shifted = rotated >> 2;
    let partial_mask = 0b10101010;
    let combined = shifted | partial_mask;
    let final_val = combined ^ compliance_flags;
    final_val
}

/// Value of the carbon offset score:
/// `((emissions + credits) * (rate + 1)) << 2`, exactly.
pub open spec fn carbon_offset_val(
    measured_emissions: u64,
    carbon_credits: u64,
    regulatory_rate: u32,
) -> nat {
    ((measured_emissions as nat + carbon_credits as nat) * (regulatory_rate as nat + 1)) * pow2(2)
}

/// Computes the carbon offset score in arbitrary precision.
pub fn compute_carbon_offset_big(
    measured_emissions: u64,
    carbon_credits: u64,
    regulatory_rate: u32,
) -> (r: num_bigint::BigUint)
    ensures
        big_nat(r) == carbon_offset_val(measured_emissions, carbon_credits, regulatory_rate),
{
    let meas_big = big_from_u64(measured_emissions);
    let creds_big = big_from_u64(carbon_credits);
    let rate_big = big_from_u32(regulatory_rate);
    let one = big_from_u32(1);
    let sum = big_add(&meas_big, &creds_big);
    let rate_plus_one = big_add(&rate_big, &one);
    let product = big_mul(&sum, &rate_plus_one);
    let shifted = big_shl(&product, 2);
    shifted
}

/// Value of the baseline compliance figure:
/// `(emissions^2 + credits^3 + 10000) * rate`, exactly.
pub open spec fn baseline_compliance_val(
    measured_emissions: u64,
    carbon_credits: u64,
    regulatory_rate: u32,
) -> nat {
    ((measured_emissions as nat * measured_emissions as nat + (carbon_credits as nat
        * carbon_credits as nat) * carbon_credits as nat) + 10000) * regulatory_rate as nat
}

/// Computes the baseline compliance figure in arbitrary precision.
pub fn baseline_compliance_check(
    measured_emissions: u64,
    carbon_credits: u64,
    regulatory_rate: u32,
) -> (r: num_bigint::BigUint)
    ensures
        big_nat(r) == baseline_compliance_val(measured_emissions, carbon_credits, regulatory_rate),
{
    let e_big = big_from_u64(measured_emissions);
    let c_big = big_from_u64(carbon_credits);
    let r_big = big_from_u32(regulatory_rate);
    let ten_thousand = big_from_u32(10000);
    let e_sq = big_mul(&e_big, &e_big);
    let c_sq = big_mul(&c_big, &c_big);
    let c_cube = big_mul(&c_sq, &c_big);
    let partial = big_add(&e_sq, &c_cube);
    let partial_sum = big_add(&partial, &ten_thousand);
    big_mul(&partial_sum, &r_big)
}

/// Value of the fold of a large figure into 64 bits: its low word rotated
/// left by the popcount (mod 64), then differenced with the popcount.
pub open spec fn combine_biguint_xor_val(big_val: nat, pop_u32: u32) -> u64 {
    let lower_64 = (big_val % 0x1_0000_0000_0000_0000nat) as u64;
    let rotated = rotl64_val(lower_64, pop_u32 % 64);
    rotated ^ (pop_u32 as u64)
}

/// Folds a large figure into 64 bits through its low word, a rotation by
/// the given popcount, and a final difference with that popcount.
pub fn combine_biguint_xor(big_val: &num_bigint::BigUint, pop_u32: u32) -> (r: u64)
    ensures
        r == combine_biguint_xor_val(big_nat(*big_val), pop_u32),
{
    let lower_64 = big_low_u64(big_val);
    let rotate_bits = pop_u32 % 64;
    let rotated = rotl_u64(lower_64, rotate_bits);
    rotated ^ (pop_u32 as u64)
}

/// The value of the compliance fallback: halve the emissions, then the
/// credits, accepting the first variant whose offset clears the fixed
/// threshold, and recurse on both halved figures otherwise.
pub open spec fn partial_fallback_compliance_val(
    measured_emissions: u64,
    carbon_credits: u64,
    compliance_flags: u32,
    regulatory_rate: u32,
    attempts: u32,
) -> u64
    decreases attempts,
{
    if attempts == 0 {
        0
    } else {
        let half_emissions = measured_emissions / 2;
        let offset = carbon_offset_val(half_emissions, carbon_credits, regulatory_rate);
        let baseline = baseline_compliance_val(half_emissions, carbon_credits, regulatory_rate);
        if offset > 50000 {
            let tf = transform_compliance_val(compliance_flags);
            let pop = (popcount(tf as nat) as u32);
            xor_all(
                seq![
                    combine_biguint_xor_val(offset, pop),
                    combine_biguint_xor_val(baseline, pop / 2),
                    half_emissions,
                    carbon_credits,
                    tf as u64,
                ],
            )
        } else {
            let half_credits = carbon_credits / 2;
            let offset_2 = carbon_offset_val(measured_emissions, half_credits, regulatory_rate);
            let baseline_2 = baseline_compliance_val(
                measured_emissions,
                half_credits,
                regulatory_rate,
            );
            if offset_2 > 50000 {
                let tf = transform_compliance_val(compliance_flags);
                let pop = (popcount(tf as nat) as u32);
                xor_all(
                    seq![
                        combine_biguint_xor_val(offset_2, pop),
                        combine_biguint_xor_val(baseline_2, pop / 2),
                        measured_emissions,
                        half_credits,
                        tf as u64,
                    ],
                )
            } else {
                partial_fallback_compliance_val(
                    half_emissions,
                    half_credits,
                    compliance_flags,
                    regulatory_rate,
                    (attempts - 1) as u32,
                )
            }
        }
    }
}

/// Fallback when the required compliance bits are missing: progressively
/// halve the measured emissions and the carbon credits until an offset
/// clears the threshold 50000 or the attempt budget runs out.
pub fn partial_fallback_compliance(
    measured_emissions: u64,
    carbon_credits: u64,
    compliance_flags: u32,
    regulatory_rate: u32,
    attempts: u32,
) -> (r: u64)
    ensures
        r == partial_fallback_compliance_val(
            measured_emissions,
            carbon_credits,
            compliance_flags,
            regulatory_rate,
            attempts,
        ),
        attempts == 0 ==> r == 0,
    decreases attempts,
{
    if attempts == 0 {
        return 0;
    }
    let half_emissions = safe_div_u64(measured_emissions, 2);
    let offset_big = compute_carbon_offset_big(half_emissions, carbon_credits, regulatory_rate);
    let baseline_big = baseline_compliance_check(half_emissions, carbon_credits, regulatory_rate);

    let threshold_big = big_from_u32(50000);
    if big_gt(&offset_big, &threshold_big) {
        let transformed_flags = transform_compliance_flags(compliance_flags);
        let pop_flags = compliance_popcount(transformed_flags);
        proof {
            lemma_popcount_le(transformed_flags as nat);
        }
        let combined_offset = combine_biguint_xor(&offset_big, pop_flags);
        let combined_base = combine_biguint_xor(&baseline_big, pop_flags / 2);
        let parts: [u64; 5] = [
            combined_offset,
            combined_base,
            half_emissions,
            carbon_credits,
            transformed_flags as u64,
        ];
        let r = combine_results_64(vstd::array::array_as_slice(&parts));
        proof {
            assert(parts@ =~= seq![
                combined_offset,
                combined_base,
                half_emissions,
                carbon_credits,
                transformed_flags as u64,
            ]);
        }
        return r;
    }

    let half_credits = safe_div_u64(carbon_credits, 2);
    let offset_big_2 = compute_carbon_offset_big(measured_emissions, half_credits, regulatory_rate);
    let baseline_big_2 = baseline_compliance_check(
        measured_emissions,
        half_credits,
        regulatory_rate,
    );

    if big_gt(&offset_big_2, &threshold_big) {
        let transformed_flags = transform_compliance_flags(compliance_flags);
        let pop_flags = compliance_popcount(transformed_flags);
        proof {
            lemma_popcount_le(transformed_flags as nat);
        }
        let combined_offset = combine_biguint_xor(&offset_big_2, pop_flags);
        let combined_base = combine_biguint_xor(&baseline_big_2, pop_flags / 2);
        let parts: [u64; 5] = [
            combined_offset,
            combined_base,
            measured_emissions,
            half_credits,
            transformed_flags as u64,
        ];
        let r = combine_results_64(vstd::array::array_as_slice(&parts));
        proof {
            assert(parts@ =~= seq![
                combined_offset,
                combined_base,
                measured_emissions,
                half_credits,
                transformed_flags as u64,
            ]);
        }
        return r;
    }

    partial_fallback_compliance(
        half_emissions,
        half_credits,
        compliance_flags,
        regulatory_rate,
        attempts - 1,
    )
}

/// Folds a batch of 64-bit partial results into one word by exclusive-or.
pub fn combine_results_64(values: &[u64]) -> (r: u64)
    ensures
        r == xor_all(values@),
{
    crate::bits::xor_fold_u64(values)
}

} // verus!
