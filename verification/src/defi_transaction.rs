//! Swap-simulation oracle for a constant-product liquidity pool: a fee that
//! adapts to trade size and volatility, the swap output and slippage
//! formulas, pool-health bookkeeping, fee distribution, and a partial trade
//! of half the amount as the fallback. All arithmetic saturates and all
//! divisions answer 0 to a zero divisor.

use vstd::prelude::*;

use crate::arith::{div0_u64, sat_add_u64, sat_mul_u64, sat_sub_u64};
use crate::arith::{safe_add, safe_div, safe_mul, safe_sub};

verus! {

/// A swap amount is valid when it is positive and within the balance.
pub fn validate_swap_amount(swap_amount: u64, user_balance: u64) -> (r: bool)
    ensures
        r == (swap_amount > 0 && swap_amount <= user_balance),
{
    swap_amount > 0 && swap_amount <= user_balance
}

/// Value of the pseudo-historical price anchor: the weighted average
/// (weights 1, 2, 1) of the price shifted down 50, itself, and up 25.
pub open spec fn historical_price_val(current_price: int) -> int {
    let low = sat_sub_u64(current_price, 50);
    let mid = sat_mul_u64(current_price, 2);
    let high = sat_add_u64(current_price, 25);
    div0_u64(sat_add_u64(sat_add_u64(low, mid), high), 4)
}

/// Builds the weighted average of a small pretend price history.
pub fn simulate_historical_price_data(current_price: u64) -> (r: u64)
    ensures
        r == historical_price_val(current_price as int),
{
    let low = current_price.saturating_sub(50);
    let high = current_price.saturating_add(25);
    let mut weighted_sum: u64 = 0;
    let mut weight_total: u64 = 0;
    weighted_sum = safe_add(weighted_sum, safe_mul(low, 1));
    weight_total = safe_add(weight_total, 1);
    weighted_sum = safe_add(weighted_sum, safe_mul(current_price, 2));
    weight_total = safe_add(weight_total, 2);
    weighted_sum = safe_add(weighted_sum, safe_mul(high, 1));
    weight_total = safe_add(weight_total, 1);
    safe_div(weighted_sum, weight_total)
}

/// Value of the adaptive fee numerator: the 0.3% base doubles for a trade
/// above a tenth of the reserve, and two more points are added when the
/// price strays more than 5% from the anchor.
pub open spec fn fee_numerator_val(
    swap_amount: int,
    pool_input_reserve: int,
    historical_price: int,
    current_price: int,
) -> int {
    let base = if swap_amount > pool_input_reserve / 10 {
        sat_mul_u64(3, 2)
    } else {
        3
    };
    let price_diff = if current_price > historical_price {
        sat_sub_u64(current_price, historical_price)
    } else {
        sat_sub_u64(historical_price, current_price)
    };
    let anchor = if historical_price < 1 {
        1
    } else {
        historical_price
    };
    let volatility_ratio = sat_mul_u64(price_diff, 1000) / anchor;
    if volatility_ratio > 50 {
        sat_add_u64(base, 2)
    } else {
        base
    }
}

/// Adapts the base fee of 3/1000 to the trade size and the volatility.
pub fn adjust_fee(
    swap_amount: u64,
    pool_input_reserve: u64,
    historical_price: u64,
    current_price: u64,
) -> (r: (u64, u64))
    ensures
        r.0 == fee_numerator_val(
            swap_amount as int,
            pool_input_reserve as int,
            historical_price as int,
            current_price as int,
        ),
        r.1 == 1000,
{
    let base_fee_numerator: u64 = 3;
    let base_fee_denominator: u64 = 1000;

    let large_trade_threshold = safe_div(pool_input_reserve, 10);
    let mut fee_num = base_fee_numerator;
    let fee_den = base_fee_denominator;

    if swap_amount > large_trade_threshold {
        fee_num = safe_mul(fee_num, 2);
    }

    let price_diff = if current_price > historical_price {
        safe_sub(current_price, historical_price)
    } else {
        safe_sub(historical_price, current_price)
    };

    let anchor = if historical_price < 1 {
        1
    } else {
        historical_price
    };
    let volatility_ratio = safe_mul(price_diff, 1000) / anchor;
    if volatility_ratio > 50 {
        fee_num = safe_add(fee_num, 2);
    }

    (fee_num, fee_den)
}

/// Value of the input that remains effective once the fee is taken:
/// `input * den / (den + num)`.
pub open spec fn effective_input_val(input_amount: int, fee_numerator: int, fee_denominator: int)
    -> int {
    let total = sat_add_u64(fee_denominator, fee_numerator);
    if total == 0 {
        0
    } else {
        sat_mul_u64(input_amount, fee_denominator) / total
    }
}

/// Input that stays effective after the fee.
pub fn effective_input_after_fee(input_amount: u64, fee_numerator: u64, fee_denominator: u64) -> (r:
    u64)
    ensures
        r == effective_input_val(input_amount as int, fee_numerator as int, fee_denominator as int),
{
    let total = safe_add(fee_denominator, fee_numerator);
    if total == 0 {
        return 0;
    }
    safe_div(safe_mul(input_amount, fee_denominator), total)
}

/// Value of the constant-product swap output:
/// `effective * out_reserve / (in_reserve + effective)`.
pub open spec fn swap_output_val(
    input_amount: int,
    input_reserve: int,
    output_reserve: int,
    fee_numerator: int,
    fee_denominator: int,
) -> int {
    let effective_input = effective_input_val(input_amount, fee_numerator, fee_denominator);
    let denom = sat_add_u64(input_reserve, effective_input);
    if denom == 0 {
        0
    } else {
        sat_mul_u64(effective_input, output_reserve) / denom
    }
}

/// Output owed for a swap under the constant-product formula with fee.
pub fn calculate_swap_output_with_fee(
    input_amount: u64,
    input_reserve: u64,
    output_reserve: u64,
    fee_numerator: u64,
    fee_denominator: u64,
) -> (r: u64)
    ensures
        r == swap_output_val(
            input_amount as int,
            input_reserve as int,
            output_reserve as int,
            fee_numerator as int,
            fee_denominator as int,
        ),
{
    let effective_input = effective_input_after_fee(input_amount, fee_numerator, fee_denominator);
    let denom = safe_add(input_reserve, effective_input);
    if denom == 0 {
        return 0;
    }
    safe_div(safe_mul(effective_input, output_reserve), denom)
}

/// Value of the slippage percentage; 100 stands in for an empty pool, a
/// meaningless trade, or a drained pool.
pub open spec fn slippage_val(input_amount: int, input_reserve: int, output_reserve: int) -> int {
    if output_reserve == 0 {
        100
    } else {
        let initial_price = div0_u64(sat_mul_u64(input_reserve, 1000000), output_reserve);
        let new_input_reserve = sat_add_u64(input_reserve, input_amount);
        let denom = sat_add_u64(input_reserve, input_amount);
        if denom == 0 {
            100
        } else {
            let next_output = sat_sub_u64(
                output_reserve,
                sat_mul_u64(input_amount, output_reserve) / denom,
            );
            if next_output == 0 {
                100
            } else {
                let new_price = div0_u64(sat_mul_u64(new_input_reserve, 1000000), next_output);
                if new_price < initial_price {
                    div0_u64(sat_mul_u64(sat_sub_u64(initial_price, new_price), 100),
                        initial_price)
                } else {
                    0
                }
            }
        }
    }
}

/// Slippage of a trade as a percentage difference of pool prices.
pub fn calculate_slippage(input_amount: u64, input_reserve: u64, output_reserve: u64) -> (r: u64)
    ensures
        r == slippage_val(input_amount as int, input_reserve as int, output_reserve as int),
{
    if output_reserve == 0 {
        return 100;
    }
    let initial_price = safe_div(safe_mul(input_reserve, 1000000), output_reserve);

    let new_input_reserve = safe_add(input_reserve, input_amount);
    let denom = safe_add(input_reserve, input_amount);
    if denom == 0 {
        return 100;
    }
    let next_output = safe_sub(
        output_reserve,
        safe_div(safe_mul(input_amount, output_reserve), denom),
    );

    if next_output == 0 {
        return 100;
    }

    let new_price = safe_div(safe_mul(new_input_reserve, 1000000), next_output);

    if new_price < initial_price {
        safe_div(safe_mul(safe_sub(initial_price, new_price), 100), initial_price)
    } else {
        0
    }
}

/// The slippage is tolerable when it does not exceed the bound.
pub fn check_slippage_tolerance(slippage: u64, max_slippage: u64) -> (r: bool)
    ensures
        r == (slippage <= max_slippage),
{
    slippage <= max_slippage
}

/// Value of the pool in input-asset terms:
/// `in_reserve + out_reserve * price / 1000000`.
pub open spec fn pool_value_val(input_reserve: int, output_reserve: int, price: int) -> int {
    sat_add_u64(input_reserve, sat_mul_u64(output_reserve, price) / 1000000)
}

/// Pool value in terms of the input asset.
pub fn calculate_pool_value(input_reserve: u64, output_reserve: u64, price: u64) -> (r: u64)
    ensures
        r == pool_value_val(input_reserve as int, output_reserve as int, price as int),
{
    safe_add(input_reserve, safe_div(safe_mul(output_reserve, price), 1000000))
}

/// Value of the fees collected: `input * num / (den + num)`.
pub open spec fn fees_collected_val(input_amount: int, fee_numerator: int, fee_denominator: int)
    -> int {
    let total = sat_add_u64(fee_denominator, fee_numerator);
    if total == 0 {
        0
    } else {
        sat_mul_u64(input_amount, fee_numerator) / total
    }
}

/// Fees collected from the user for a trade.
pub fn calculate_fees_collected(input_amount: u64, fee_numerator: u64, fee_denominator: u64) -> (r:
    u64)
    ensures
        r == fees_collected_val(input_amount as int, fee_numerator as int, fee_denominator as int),
{
    let total = safe_add(fee_denominator, fee_numerator);
    if total == 0 {
        return 0;
    }
    safe_div(safe_mul(input_amount, fee_numerator), total)
}

/// Reserves after the trade: the swap joins the input side, the paid
/// output leaves the other (clamping at empty).
pub fn simulate_pool_state(
    input_reserve: u64,
    output_reserve: u64,
    swap_amount: u64,
    output_amount: u64,
) -> (r: (u64, u64))
    ensures
        r.0 == sat_add_u64(input_reserve as int, swap_amount as int),
        r.1 == (if output_reserve > output_amount {
            sat_sub_u64(output_reserve as int, output_amount as int)
        } else {
            0int
        }),
{
    let new_input_reserve = safe_add(input_reserve, swap_amount);
    let new_output_reserve = if output_reserve > output_amount {
        safe_sub(output_reserve, output_amount)
    } else {
        0
    };
    (new_input_reserve, new_output_reserve)
}

/// The pool stays healthy with more than 1000 units on each side.
pub fn check_pool_health(new_input_reserve: u64, new_output_reserve: u64) -> (r: bool)
    ensures
        r == (new_input_reserve > 1000 && new_output_reserve > 1000),
{
    new_input_reserve > 1000 && new_output_reserve > 1000
}

/// Shares of the fees: half to liquidity providers, three tenths to the
/// treasury, and whatever remains to the insurance fund.
pub fn distribute_fees(fees: u64) -> (r: (u64, u64, u64))
    ensures
        r.0 == fees as int / 2,
        r.1 == sat_mul_u64(fees as int, 3) / 10,
        r.2 == ({
            let used = sat_add_u64(fees as int / 2, sat_mul_u64(fees as int, 3) / 10);
            if fees > used {
                sat_sub_u64(fees as int, used)
            } else {
                0int
            }
        }),
{
    let lp_share = safe_div(fees, 2);
    let treasury_share = safe_div(safe_mul(fees, 3), 10);
    let used = safe_add(lp_share, treasury_share);
    let insurance_share = if fees > used {
        safe_sub(fees, used)
    } else {
        0
    };
    (lp_share, treasury_share, insurance_share)
}

/// Value of the partial trade: half the amount, when it is positive,
/// affordable, and within the slippage tolerance; else the sentinel 0.
pub open spec fn partial_trade_val(
    swap_amount: int,
    user_input_balance: int,
    pool_input_reserve: int,
    pool_output_reserve: int,
    fee_numerator: int,
    fee_denominator: int,
    max_slippage: int,
) -> int {
    let half_amount = swap_amount / 2;
    if half_amount == 0 || half_amount > user_input_balance {
        0
    } else {
        let output_half = swap_output_val(
            half_amount,
            pool_input_reserve,
            pool_output_reserve,
            fee_numerator,
            fee_denominator,
        );
        let slippage_half = slippage_val(half_amount, pool_input_reserve, pool_output_reserve);
        if !(slippage_half <= max_slippage) {
            0
        } else {
            output_half
        }
    }
}

/// Attempts a trade of half the amount when the full trade's conditions
/// fail; the sentinel 0 reports that even the half trade is unworkable.
pub fn attempt_partial_trade(
    swap_amount: u64,
    user_input_balance: u64,
    pool_input_reserve: u64,
    pool_output_reserve: u64,
    fee_numerator: u64,
    fee_denominator: u64,
    max_slippage: u64,
) -> (r: u64)
    ensures
        r == partial_trade_val(
            swap_amount as int,
            user_input_balance as int,
            pool_input_reserve as int,
            pool_output_reserve as int,
            fee_numerator as int,
            fee_denominator as int,
            max_slippage as int,
        ),
{
    let half_amount = safe_div(swap_amount, 2);
    if half_amount == 0 || half_amount > user_input_balance {
        return 0;
    }

    let output_half = calculate_swap_output_with_fee(
        half_amount,
        pool_input_reserve,
        pool_output_reserve,
        fee_numerator,
        fee_denominator,
    );

    let slippage_half = calculate_slippage(half_amount, pool_input_reserve, pool_output_reserve);
    if !check_slippage_tolerance(slippage_half, max_slippage) {
        return 0;
    }

    output_half
}

} // verus!
