//! Financial-protocol oracle: collateral-ratio loan screening, naive
//! per-slice compound interest over saturating 32-bit arithmetic, staking
//! rewards compounded in arbitrary precision, a liquidity-pool share decay
//! simulation, and a bounded fallback that halves the borrowed amount.

use vstd::prelude::*;

use crate::arith::{sat_add_u32, sat_mul_u32, sat_sub_u32};
use crate::arith::{safe_add_u32, safe_div_u32, safe_mul_u32, safe_sub_u32};
use crate::bignum::{big_add, big_clone, big_div, big_div_u32, big_from_u32, big_gt, big_mul,
    big_nat, big_sub, big_to_u32_sat};
use crate::bits::xor_all_u32;

verus! {

/// Whether the collateral covers the borrowed amount at a 200% ratio; a
/// zero borrow is never healthy.
pub open spec fn loan_health_val(collateral: u32, borrowed: u32) -> bool {
    borrowed != 0 && sat_mul_u32(collateral as int, 100) / (borrowed as int) >= 200
}

/// Screens a loan: the collateral (scaled by 100, saturating) must reach
/// twice the borrowed amount.
pub fn validate_loan_health(collateral: u32, borrowed: u32) -> (r: bool)
    ensures
        r == loan_health_val(collateral, borrowed),
{
    if borrowed == 0 {
        return false;
    }
    let ratio = safe_div_u32(safe_mul_u32(collateral, 100), borrowed);
    ratio >= 200
}

/// One compounding slice after another: each adds the (saturating) product
/// of the principal and the per-slice rate.
pub open spec fn compound_principal(principal: int, rate: int, slices: nat) -> int
    decreases slices,
{
    if slices == 0 {
        principal
    } else {
        compound_principal(
            sat_add_u32(principal, sat_mul_u32(principal, rate)),
            rate,
            (slices - 1) as nat,
        )
    }
}

/// Value of the accrued interest: the compounded principal minus the
/// original, with the per-slice rate the doubly divided basis points.
pub open spec fn compound_interest_val(
    borrowed: u32,
    annual_interest_bps: u32,
    time_slices: u32,
) -> int {
    if time_slices == 0 {
        0
    } else {
        let fraction_bps = (annual_interest_bps as int) / (time_slices as int);
        let rate = fraction_bps / 10000;
        sat_sub_u32(compound_principal(borrowed as int, rate, time_slices as nat), borrowed as int)
    }
}

/// Accrues interest by naive per-slice compounding; the integer per-slice
/// rate truncates to 0 unless the divided basis points reach 10000.
pub fn compute_compound_interest(borrowed: u32, annual_interest_bps: u32, time_slices: u32) -> (r:
    u32)
    ensures
        r == compound_interest_val(borrowed, annual_interest_bps, time_slices),
{
    if time_slices == 0 {
        return 0;
    }
    let mut principal = borrowed;
    let fraction_bps = safe_div_u32(annual_interest_bps, time_slices);
    let ghost rate_spec = (annual_interest_bps as int) / (time_slices as int) / 10000;
    let mut k: u32 = 0;
    while k < time_slices
        invariant
            k <= time_slices,
            compound_principal(principal as int, rate_spec, (time_slices - k) as nat)
                == compound_principal(borrowed as int, rate_spec, time_slices as nat),
            fraction_bps == (annual_interest_bps as int) / (time_slices as int),
            rate_spec == (annual_interest_bps as int) / (time_slices as int) / 10000,
        decreases time_slices - k,
    {
        let ghost p0 = principal as int;
        let rate = safe_div_u32(fraction_bps, 10000);
        let slice_interest = safe_mul_u32(principal, rate);
        principal = safe_add_u32(principal, slice_interest);
        proof {
            assert(rate as int == rate_spec);
            assert(principal as int == sat_add_u32(p0, sat_mul_u32(p0, rate_spec)));
            assert(compound_principal(p0, rate_spec, (time_slices - k) as nat)
                == compound_principal(principal as int, rate_spec, (time_slices - k - 1) as nat));
        }
        k = k + 1;
    }
    safe_sub_u32(principal, borrowed)
}

/// One staking slice after another: each adds the exact product of the
/// current stake and the per-slice rate.
pub open spec fn staking_current(cur: nat, rate: nat, slices: nat) -> nat
    decreases slices,
{
    if slices == 0 {
        cur
    } else {
        staking_current(cur + cur * rate, rate, (slices - 1) as nat)
    }
}

/// Value of the staking rewards: the growth of the staked share of the
/// collateral over the slices, saturated into 32 bits at the end. The
/// integer per-slice rate truncates to 0 for ordinary basis points, and
/// then the reward is 0.
pub open spec fn staking_rewards_val(
    collateral: u32,
    stake_ratio: u32,
    reward_rate_bps: u32,
    time_slices: u32,
) -> nat {
    let staked = (collateral as nat * stake_ratio as nat) / 100;
    if time_slices == 0 {
        0
    } else {
        let rate = (reward_rate_bps as nat / 10000) / time_slices as nat;
        let cur = staking_current(staked, rate, time_slices as nat);
        let reward: nat = if cur > staked {
            (cur - staked) as nat
        } else {
            0
        };
        if reward <= u32::MAX {
            reward
        } else {
            u32::MAX as nat
        }
    }
}

/// Compounds the staked share of the collateral in arbitrary precision and
/// reports the accrued difference, saturated into 32 bits.
pub fn compute_staking_rewards_bigint(
    collateral: u32,
    stake_ratio: u32,
    reward_rate_bps: u32,
    time_slices: u32,
) -> (r: u32)
    ensures
        r == staking_rewards_val(collateral, stake_ratio, reward_rate_bps, time_slices),
{
    let collateral_big = big_from_u32(collateral);
    let ratio_big = big_from_u32(stake_ratio);
    let hundred_big = big_from_u32(100);
    let reward_bps_big = big_from_u32(reward_rate_bps);
    let ten_thousand_big = big_from_u32(10000);

    let scaled = big_mul(&collateral_big, &ratio_big);
    let staked = big_div(&scaled, &hundred_big);
    let ghost staked0 = big_nat(staked);
    let ghost rate_spec = (reward_rate_bps as nat / 10000) / time_slices as nat;
    let mut current_staked = big_clone(&staked);
    let mut k: u32 = 0;
    while k < time_slices
        invariant
            k <= time_slices,
            time_slices >= 1 ==> staking_current(big_nat(current_staked), rate_spec, (time_slices
                - k) as nat) == staking_current(staked0, rate_spec, time_slices as nat),
            time_slices == 0 ==> big_nat(current_staked) == staked0,
            big_nat(reward_bps_big) == reward_rate_bps as nat,
            big_nat(ten_thousand_big) == 10000,
            big_nat(staked) == staked0,
            rate_spec == (reward_rate_bps as nat / 10000) / time_slices as nat,
        decreases time_slices - k,
    {
        let partial_rate_a = big_div(&reward_bps_big, &ten_thousand_big);
        let partial_rate = big_div_u32(&partial_rate_a, time_slices);
        let yield_part = big_mul(&current_staked, &partial_rate);
        current_staked = big_add(&current_staked, &yield_part);
        k = k + 1;
    }
    let reward = if big_gt(&current_staked, &staked) {
        big_sub(&current_staked, &staked)
    } else {
        big_from_u32(0)
    };
    big_to_u32_sat(&reward)
}

/// One simulated block for the pool shares: a saturating decay, then a
/// saturating performance fee, then a half re-stake whenever the shares
/// fall below 100.
pub open spec fn pool_step(cur: int, decay_rate: int, fee_rate: int) -> int {
    let after_decay = sat_sub_u32(cur, sat_mul_u32(cur, decay_rate));
    let after_fee = sat_sub_u32(after_decay, sat_mul_u32(after_decay, fee_rate));
    if after_fee < 100 {
        sat_add_u32(after_fee, after_fee / 2)
    } else {
        after_fee
    }
}

/// The pool shares after the given number of blocks.
pub open spec fn pool_shares(cur: int, decay_rate: int, fee_rate: int, slices: nat) -> int
    decreases slices,
{
    if slices == 0 {
        cur
    } else {
        pool_shares(pool_step(cur, decay_rate, fee_rate), decay_rate, fee_rate, (slices - 1) as nat)
    }
}

/// Value of the simulated pool shares, with both rates the (truncating)
/// division of their basis points by 10000.
pub open spec fn pool_shares_val(
    shares: u32,
    time_slices: u32,
    decay_bps: u32,
    performance_fee_bps: u32,
) -> int {
    pool_shares(
        shares as int,
        decay_bps as int / 10000,
        performance_fee_bps as int / 10000,
        time_slices as nat,
    )
}

/// Simulates pool shares over the given blocks: decay, performance fee,
/// and a partial re-stake whenever the shares drop below 100.
pub fn simulate_liquidity_pool_shares_complex(
    shares: u32,
    time_slices: u32,
    decay_bps: u32,
    performance_fee_bps: u32,
) -> (r: u32)
    ensures
        r == pool_shares_val(shares, time_slices, decay_bps, performance_fee_bps),
{
    if time_slices == 0 {
        return shares;
    }
    let ghost decay_rate_spec = decay_bps as int / 10000;
    let ghost fee_rate_spec = performance_fee_bps as int / 10000;
    let mut current_shares = shares;
    let mut k: u32 = 0;
    while k < time_slices
        invariant
            k <= time_slices,
            pool_shares(current_shares as int, decay_rate_spec, fee_rate_spec, (time_slices
                - k) as nat) == pool_shares(
                shares as int,
                decay_rate_spec,
                fee_rate_spec,
                time_slices as nat,
            ),
            decay_rate_spec == decay_bps as int / 10000,
            fee_rate_spec == performance_fee_bps as int / 10000,
        decreases time_slices - k,
    {
        let decay_rate = safe_div_u32(decay_bps, 10000);
        let decay_amount = safe_mul_u32(current_shares, decay_rate);
        current_shares = safe_sub_u32(current_shares, decay_amount);

        let fee_rate = safe_div_u32(performance_fee_bps, 10000);
        let fee_amount = safe_mul_u32(current_shares, fee_rate);
        current_shares = safe_sub_u32(current_shares, fee_amount);

        if current_shares < 100 {
            let half_stake = safe_div_u32(current_shares, 2);
            current_shares = safe_add_u32(current_shares, half_stake);
        }
        k = k + 1;
    }
    current_shares
}

/// The value of the loan fallback: the first of the halved and quartered
/// borrow that is healthy yields a fold of the recomputed figures; if
/// neither is, the sentinel 0.
pub open spec fn partial_fallback_loan_val(
    collateral: u32,
    borrowed: u32,
    annual_interest_bps: u32,
    stake_ratio: u32,
    reward_rate_bps: u32,
) -> u32 {
    let half_borrowed = borrowed / 2;
    if loan_health_val(collateral, half_borrowed) {
        xor_all_u32(
            seq![
                half_borrowed,
                compound_interest_val(half_borrowed, annual_interest_bps, 3) as u32,
                staking_rewards_val(collateral, stake_ratio, reward_rate_bps, 3) as u32,
                collateral,
            ],
        )
    } else {
        let quarter_borrowed = half_borrowed / 2;
        if loan_health_val(collateral, quarter_borrowed) {
            xor_all_u32(
                seq![
                    quarter_borrowed,
                    compound_interest_val(quarter_borrowed, annual_interest_bps, 3) as u32,
                    staking_rewards_val(collateral, stake_ratio, reward_rate_bps, 3) as u32,
                    collateral,
                ],
            )
        } else {
            0
        }
    }
}

/// Fallback for an unhealthy loan: halve the borrowed amount, then quarter
/// it, recomputing interest and staking rewards for the first healthy
/// stage; the sentinel 0 reports that neither stage is healthy.
pub fn partial_fallback_loan(
    collateral: u32,
    borrowed: u32,
    annual_interest_bps: u32,
    stake_ratio: u32,
    reward_rate_bps: u32,
) -> (r: u32)
    ensures
        r == partial_fallback_loan_val(
            collateral,
            borrowed,
            annual_interest_bps,
            stake_ratio,
            reward_rate_bps,
        ),
{
    let half_borrowed = safe_div_u32(borrowed, 2);
    if validate_loan_health(collateral, half_borrowed) {
        let interest = compute_compound_interest(half_borrowed, annual_interest_bps, 3);
        let staking = compute_staking_rewards_bigint(collateral, stake_ratio, reward_rate_bps, 3);
        let parts: [u32; 4] = [half_borrowed, interest, staking, collateral];
        let r = combine_results(vstd::array::array_as_slice(&parts));
        proof {
            assert(parts@ =~= seq![half_borrowed, interest, staking, collateral]);
        }
        return r;
    }

    let quarter_borrowed = safe_div_u32(half_borrowed, 2);
    if validate_loan_health(collateral, quarter_borrowed) {
        let interest = compute_compound_interest(quarter_borrowed, annual_interest_bps, 3);
        let staking = compute_staking_rewards_bigint(collateral, stake_ratio, reward_rate_bps, 3);
        let parts: [u32; 4] = [quarter_borrowed, interest, staking, collateral];
        let r = combine_results(vstd::array::array_as_slice(&parts));
        proof {
            assert(parts@ =~= seq![quarter_borrowed, interest, staking, collateral]);
        }
        return r;
    }

    0
}

/// Folds 32-bit partial results into one word by exclusive-or.
pub fn combine_results(results: &[u32]) -> (r: u32)
    ensures
        r == xor_all_u32(results@),
{
    crate::bits::xor_fold_u32(results)
}

} // verus!
