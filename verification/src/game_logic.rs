//! Game-logic oracle: forging costs for legendary items computed in
//! arbitrary precision, a combat-damage formula, an experience curve, and a
//! bounded fallback that halves the forging inputs when the player lacks
//! the resources.

use vstd::prelude::*;

use crate::arith::sat_mul_u32;
use crate::arith::{safe_div_u32, safe_div_u64, safe_mul_u32};
use crate::bignum::{big_from_u32, big_from_u64, big_int, big_mul, big_nat, big_to_u64_sat,
    bigint_add, bigint_from_u32, bigint_mul, bigint_to_u64_sat};
use crate::bits::{xor_all, xor_all_u32};

verus! {

/// The player can act when both the energy and the focus costs are covered.
pub fn validate_action_requirements(
    player_energy: u64,
    player_focus: u32,
    cost_energy: u64,
    cost_focus: u32,
) -> (r: bool)
    ensures
        r == (player_energy >= cost_energy && player_focus >= cost_focus),
{
    if player_energy < cost_energy {
        return false;
    }
    if player_focus < cost_focus {
        return false;
    }
    true
}

/// Value of the combat damage: attack power squared (saturating in 32
/// bits) over the defense, which counts as 1 when it is 0.
pub open spec fn combat_damage_val(attack_power: u32, defense: u32) -> int {
    let squared = sat_mul_u32(attack_power as int, attack_power as int);
    let def: int = if defense == 0 {
        1
    } else {
        defense as int
    };
    squared / def
}

/// Damage dealt: roughly attack power squared over defense.
pub fn compute_combat_damage(attack_power: u32, defense: u32) -> (r: u64)
    ensures
        r == combat_damage_val(attack_power, defense),
{
    let squared = safe_mul_u32(attack_power, attack_power) as u64;
    let def: u64 = if defense == 0 {
        1
    } else {
        defense as u64
    };
    safe_div_u64(squared, def)
}

/// Value of the forging cost: `base * rarity * 1000` exactly, saturated
/// into 64 bits only at the very end.
pub open spec fn forge_cost_val(base_materials: u64, rarity_factor: u32) -> nat {
    let cost = (base_materials as nat * rarity_factor as nat) * 1000;
    if cost <= u64::MAX {
        cost
    } else {
        u64::MAX as nat
    }
}

/// Cost of forging a legendary item, computed in arbitrary precision so the
/// product only saturates on conversion back to 64 bits.
pub fn forge_legendary_item_materials(base_materials: u64, rarity_factor: u32) -> (r: u64)
    ensures
        r == forge_cost_val(base_materials, rarity_factor),
{
    let base_big = big_from_u64(base_materials);
    let rarity_big = big_from_u32(rarity_factor);
    let thousand_big = big_from_u64(1000);
    let partial = big_mul(&base_big, &rarity_big);
    let cost_big = big_mul(&partial, &thousand_big);
    big_to_u64_sat(&cost_big)
}

/// Value of the experience needed for the next level:
/// `level^3 + xp_rate^2`, saturated into 64 bits at the end.
pub open spec fn experience_val(current_level: u32, xp_rate: u32) -> nat {
    let needed = (current_level as nat * current_level as nat) * current_level as nat + xp_rate
        as nat * xp_rate as nat;
    if needed <= u64::MAX {
        needed
    } else {
        u64::MAX as nat
    }
}

/// Experience needed for the next level, via arbitrary-precision partials.
pub fn compute_experience_for_level(current_level: u32, xp_rate: u32) -> (r: u64)
    ensures
        r == experience_val(current_level, xp_rate),
{
    let cl_big = bigint_from_u32(current_level);
    let xp_big = bigint_from_u32(xp_rate);
    let cl_sq = bigint_mul(&cl_big, &cl_big);
    let level_cubed = bigint_mul(&cl_sq, &cl_big);
    let xp_sqr = bigint_mul(&xp_big, &xp_big);
    let needed = bigint_add(&level_cubed, &xp_sqr);
    proof {
        assert(big_int(needed) >= 0) by (nonlinear_arith)
            requires
                big_int(needed) == (current_level as int * current_level as int) * current_level
                    as int + xp_rate as int * xp_rate as int,
                current_level as int >= 0,
                xp_rate as int >= 0,
        ;
    }
    bigint_to_u64_sat(needed)
}

/// The value of the forging fallback: halve the materials and the rarity;
/// if the player can cover the reduced cost, fold the situation's low words
/// together, else retry with the halved figures until the budget runs out.
pub open spec fn partial_fallback_val(
    player_energy: u64,
    player_focus: u32,
    base_materials: u64,
    rarity_factor: u32,
    fallback_attempts: u32,
) -> u64
    decreases fallback_attempts,
{
    if fallback_attempts == 0 {
        0
    } else {
        let half_materials = base_materials / 2;
        let half_rarity = rarity_factor / 2;
        let alt_cost = forge_cost_val(half_materials, half_rarity) as u64;
        if player_energy >= alt_cost && player_focus >= half_rarity {
            xor_all_u32(
                seq![
                    (alt_cost & 0xFFFFFFFF) as u32,
                    half_rarity,
                    (player_energy & 0xFFFFFFFF) as u32,
                    player_focus,
                ],
            ) as u64
        } else {
            partial_fallback_val(
                player_energy,
                player_focus,
                half_materials,
                half_rarity,
                (fallback_attempts - 1) as u32,
            )
        }
    }
}

/// Fallback when resources do not cover the forging cost: halve the
/// materials and rarity and either fold the reduced scenario into a result
/// or retry, until the attempt budget runs out.
pub fn partial_fallback(
    player_energy: u64,
    player_focus: u32,
    base_materials: u64,
    rarity_factor: u32,
    fallback_attempts: u32,
) -> (r: u64)
    ensures
        r == partial_fallback_val(
            player_energy,
            player_focus,
            base_materials,
            rarity_factor,
            fallback_attempts,
        ),
        fallback_attempts == 0 ==> r == 0,
    decreases fallback_attempts,
{
    if fallback_attempts == 0 {
        return 0;
    }
    let half_materials = safe_div_u64(base_materials, 2);
    let half_rarity = safe_div_u32(rarity_factor, 2);
    let alt_cost = forge_legendary_item_materials(half_materials, half_rarity);
    if validate_action_requirements(player_energy, player_focus, alt_cost, half_rarity) {
        let parts: [u32; 4] = [
            (alt_cost & 0xFFFFFFFF) as u32,
            half_rarity,
            (player_energy & 0xFFFFFFFF) as u32,
            player_focus,
        ];
        let r = combine_results(vstd::array::array_as_slice(&parts));
        proof {
            assert(parts@ =~= seq![
                (alt_cost & 0xFFFFFFFF) as u32,
                half_rarity,
                (player_energy & 0xFFFFFFFF) as u32,
                player_focus,
            ]);
        }
        r as u64
    } else {
        partial_fallback(
            player_energy,
            player_focus,
            half_materials,
            half_rarity,
            fallback_attempts - 1,
        )
    }
}

/// Folds 64-bit partial results into one word by exclusive-or.
pub fn combine_results_64(results: &[u64]) -> (r: u64)
    ensures
        r == xor_all(results@),
{
    crate::bits::xor_fold_u64(results)
}

/// Folds 32-bit partial results into one word by exclusive-or.
pub fn combine_results(results: &[u32]) -> (r: u32)
    ensures
        r == xor_all_u32(results@),
{
    crate::bits::xor_fold_u32(results)
}

} // verus!
