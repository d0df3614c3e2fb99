//! Data-provenance oracle: per-product environment flags, a quality score
//! and a certification bitmask are mixed into one 64-bit integrity value.
//! The lineage hash is computed in arbitrary precision before its low word
//! enters the bit-mixing, and a bounded fallback shifts the environment
//! flags or halves the quality score when validation fails.

use vstd::arithmetic::power2::pow2;
use vstd::prelude::*;

use crate::bignum::{big_add, big_from_u32, big_from_u64, big_low_u64, big_mul, big_nat, big_shl};
use crate::bits::{count_ones_u32, lemma_popcount_le, popcount, rotl32_val, rotl64_val, rotl_u32,
    rotl_u64};

verus! {

/// The environment is acceptable when every bit of `required_mask` is set.
pub fn validate_environment(environment_flag: u32, required_mask: u32) -> (r: bool)
    ensures
        r == ((environment_flag & required_mask) == required_mask),
{
    (environment_flag & required_mask) == required_mask
}

/// Value of the data lineage hash: the product id shifted up three bits,
/// scaled by the incremented environment flag and quality score, and by a
/// fixed prime.
pub open spec fn lineage_hash_val(product_id: u64, environment_flag: u32, quality_score: u64)
    -> nat {
    (((product_id as nat * pow2(3)) * (environment_flag as nat + 1)) * (quality_score as nat + 1))
        * 104729
}

/// Mixes the product id, environment flag and quality score into one large
/// integer, in arbitrary precision so nothing wraps.
pub fn compute_data_lineage_hash(product_id: u64, environment_flag: u32, quality_score: u64) -> (r:
    num_bigint::BigUint)
    ensures
        big_nat(r) == lineage_hash_val(product_id, environment_flag, quality_score),
{
    let product_id_big = big_from_u64(product_id);
    let env_big = big_from_u32(environment_flag);
    let quality_big = big_from_u64(quality_score);
    let prime_thing = big_from_u64(104729);
    let one = big_from_u32(1);
    let shifted = big_shl(&product_id_big, 3);
    let mixed_env = big_add(&env_big, &one);
    let mixed_quality = big_add(&quality_big, &one);
    let with_env = big_mul(&shifted, &mixed_env);
    let with_quality = big_mul(&with_env, &mixed_quality);
    big_mul(&with_quality, &prime_thing)
}

/// Value of the certification transform: rotate, shift, fold back over the
/// original, and perturb by the popcount.
pub open spec fn transform_certification_val(cert_mask: u32) -> u32 {
    let rotated = rotl32_val(cert_mask, 5);
    let shifted = rotated >> 2;
    let combined = shifted | cert_mask;
    combined ^ (popcount(combined as nat) as u32)
}

/// Rotates and folds the certification bitmask, then perturbs it by its own
/// popcount.
pub fn transform_certification_bitmask(cert_mask: u32) -> (r: u32)
    ensures
        r == transform_certification_val(cert_mask),
{
    let rotated_left = rotl_u32(cert_mask, 5);
    let shifted_right = rotated_left >> 2;
    let combined = shifted_right | cert_mask;
    let pop = count_ones_u32(combined);
    proof {
        lemma_popcount_le(combined as nat);
    }
    combined ^ pop
}

/// Value of the final integrity word: the lineage hash's low word rotated
/// left by 7, folded with the validity bit, the transformed mask and the
/// quality score.
pub open spec fn combine_final_val(
    lineage: nat,
    env_valid: bool,
    cert_transform: u32,
    quality_score: u64,
) -> u64 {
    let lineage_lo = (lineage % 0x1_0000_0000_0000_0000nat) as u64;
    let validity_bit: u64 = if env_valid {
        1
    } else {
        0
    };
    let masked_cert = cert_transform as u64;
    let x = rotl64_val(lineage_lo, 7) ^ validity_bit;
    let y = masked_cert ^ quality_score;
    x ^ y
}

/// Folds the lineage hash's low 64 bits together with the remaining
/// signals into the final integrity value.
pub fn combine_final(
    lineage_hash: &num_bigint::BigUint,
    env_valid: bool,
    cert_transform: u32,
    quality_score: u64,
) -> (r: u64)
    ensures
        r == combine_final_val(big_nat(*lineage_hash), env_valid, cert_transform, quality_score),
{
    let lineage_lo = big_low_u64(lineage_hash);
    let validity_bit: u64 = if env_valid {
        1
    } else {
        0
    };
    let masked_cert = cert_transform as u64;
    let rotate_left_7 = rotl_u64(lineage_lo, 7);
    let x = rotate_left_7 ^ validity_bit;
    let y = masked_cert ^ quality_score;
    x ^ y
}

/// The value of the fallback: try the environment flags shifted up one bit,
/// then a halved quality score, and recurse on the shifted flags until the
/// attempt budget runs out.
pub open spec fn partial_fallback_val(
    environment_flag: u32,
    quality_score: u64,
    product_id: u64,
    certification_bitmask: u32,
    attempts: u32,
) -> u64
    decreases attempts,
{
    if attempts == 0 {
        0
    } else {
        let new_env = environment_flag << 1;
        if (new_env & 0b101) == 0b101 {
            combine_final_val(
                lineage_hash_val(product_id, new_env, quality_score),
                true,
                transform_certification_val(certification_bitmask),
                quality_score,
            )
        } else {
            let half_quality = quality_score / 2;
            if ((environment_flag & 0b101) == 0b101) && half_quality > 0 {
                combine_final_val(
                    lineage_hash_val(product_id, environment_flag, half_quality),
                    true,
                    transform_certification_val(certification_bitmask),
                    half_quality,
                )
            } else {
                partial_fallback_val(
                    new_env,
                    quality_score,
                    product_id,
                    certification_bitmask,
                    (attempts - 1) as u32,
                )
            }
        }
    }
}

/// Fallback when the environment flags lack the required bits: shift the
/// flags, then try a halved quality score, and otherwise retry on the
/// shifted flags with one fewer attempt. An exhausted budget yields the
/// sentinel 0.
pub fn partial_fallback(
    environment_flag: u32,
    quality_score: u64,
    product_id: u64,
    certification_bitmask: u32,
    attempts: u32,
) -> (r: u64)
    ensures
        r == partial_fallback_val(
            environment_flag,
            quality_score,
            product_id,
            certification_bitmask,
            attempts,
        ),
        attempts == 0 ==> r == 0,
    decreases attempts,
{
    if attempts == 0 {
        return 0;
    }
    let new_env = environment_flag << 1;
    if validate_environment(new_env, 0b101) {
        let lineage_hash = compute_data_lineage_hash(product_id, new_env, quality_score);
        let transform = transform_certification_bitmask(certification_bitmask);
        combine_final(&lineage_hash, true, transform, quality_score)
    } else {
        let half_quality = crate::arith::safe_div_u64(quality_score, 2);
        if validate_environment(environment_flag, 0b101) && half_quality > 0 {
            let lineage_hash = compute_data_lineage_hash(
                product_id,
                environment_flag,
                half_quality,
            );
            let transform = transform_certification_bitmask(certification_bitmask);
            combine_final(&lineage_hash, true, transform, half_quality)
        } else {
            partial_fallback(
                new_env,
                quality_score,
                product_id,
                certification_bitmask,
                attempts - 1,
            )
        }
    }
}

} // verus!
