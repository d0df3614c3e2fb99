use numeric_oracles::arith;
use numeric_oracles::defi_transaction as defi;
use numeric_oracles::energy_usage as energy;
use numeric_oracles::financial_protocol as financial;
use numeric_oracles::game_logic as game;

#[test]
fn test_saturating_u64_ops() {
    assert_eq!(arith::safe_add_u64(u64::MAX, 1), u64::MAX);
    assert_eq!(arith::safe_add_u64(2, 3), 5);
    assert_eq!(arith::safe_sub_u64(3, 5), 0);
    assert_eq!(arith::safe_sub_u64(5, 3), 2);
    assert_eq!(arith::safe_mul_u64(u64::MAX, 2), u64::MAX);
    assert_eq!(arith::safe_mul_u64(6, 7), 42);
    assert_eq!(arith::safe_div_u64(10, 0), 0);
    assert_eq!(arith::safe_div_u64(10, 3), 3);
    assert_eq!(arith::safe_add(u64::MAX, 1), u64::MAX);
    assert_eq!(arith::safe_sub(3, 5), 0);
    assert_eq!(arith::safe_mul(u64::MAX, 2), u64::MAX);
    assert_eq!(arith::safe_div(10, 0), 0);
}

#[test]
fn test_saturating_u32_ops() {
    assert_eq!(arith::safe_add_u32(u32::MAX, 1), u32::MAX);
    assert_eq!(arith::safe_sub_u32(3, 5), 0);
    assert_eq!(arith::safe_mul_u32(u32::MAX, 2), u32::MAX);
    assert_eq!(arith::safe_div_u32(10, 0), 0);
    assert_eq!(arith::safe_div_u32(10, 3), 3);
}

#[test]
fn test_saturating_i64_ops() {
    assert_eq!(arith::safe_add_i64(i64::MAX, 1), i64::MAX);
    assert_eq!(arith::safe_add_i64(i64::MIN, -1), i64::MAX);
    assert_eq!(arith::safe_add_i64(-2, 3), 1);
    assert_eq!(arith::safe_sub_i64(i64::MIN, 1), i64::MIN);
    assert_eq!(arith::safe_sub_i64(i64::MAX, -1), i64::MIN);
    assert_eq!(arith::safe_sub_i64(5, 9), -4);
    assert_eq!(arith::safe_mul_i64(i64::MAX, 2), i64::MAX);
    assert_eq!(arith::safe_mul_i64(i64::MIN, 2), i64::MAX);
    assert_eq!(arith::safe_mul_i64(-4, 6), -24);
    assert_eq!(arith::safe_div_i64(7, -2), -3);
    assert_eq!(arith::safe_div_i64(-7, 2), -3);
    assert_eq!(arith::safe_div_i64(-7, -2), 3);
    assert_eq!(arith::safe_div_i64(7, 0), 0);
}

#[test]
fn test_saturating_i32_ops() {
    assert_eq!(arith::safe_add_i32(i32::MAX, 1), i32::MAX);
    assert_eq!(arith::safe_sub_i32(i32::MIN, 1), i32::MIN);
    assert_eq!(arith::safe_mul_i32(i32::MAX, 2), i32::MAX);
    assert_eq!(arith::safe_div_i32(7, -2), -3);
    assert_eq!(arith::safe_div_i32(7, 0), 0);
}

#[test]
fn test_validate_swap_amount() {
    assert!(defi::validate_swap_amount(1, 1));
    assert!(defi::validate_swap_amount(50, 100));
    assert!(!defi::validate_swap_amount(0, 100));
    assert!(!defi::validate_swap_amount(101, 100));
}

#[test]
fn test_simulate_historical_price_data() {
    // (950 + 2 * 1000 + 1025) / 4 == 993.
    assert_eq!(defi::simulate_historical_price_data(1000), 993);
    // Small prices clamp the shifted sample at zero: (0 + 20 + 35) / 4.
    assert_eq!(defi::simulate_historical_price_data(10), 13);
}

#[test]
fn test_adjust_fee() {
    // Small, calm trade: base fee.
    assert_eq!(defi::adjust_fee(50, 1000, 1000, 1000), (3, 1000));
    // Large trade doubles the numerator.
    assert_eq!(defi::adjust_fee(200, 1000, 1000, 1000), (6, 1000));
    // Volatility above 5% adds two points: diff 100 on anchor 1000.
    assert_eq!(defi::adjust_fee(50, 1000, 1000, 1100), (5, 1000));
    // Both conditions together.
    assert_eq!(defi::adjust_fee(200, 1000, 1000, 1100), (8, 1000));
}

#[test]
fn test_effective_input_after_fee() {
    // 1003 * 1000 / 1003 == 1000.
    assert_eq!(defi::effective_input_after_fee(1003, 3, 1000), 1000);
    assert_eq!(defi::effective_input_after_fee(100, 0, 0), 0);
}

#[test]
fn test_calculate_swap_output_with_fee() {
    // Fee-free: 1000 * 10000 / (10000 + 1000) == 909.
    assert_eq!(defi::calculate_swap_output_with_fee(1000, 10000, 10000, 0, 1000), 909);
    assert_eq!(defi::calculate_swap_output_with_fee(0, 0, 0, 0, 0), 0);
}

#[test]
fn test_calculate_slippage() {
    // An empty output side means no liquidity at all.
    assert_eq!(defi::calculate_slippage(10, 100, 0), 100);
    // Empty input side and no amount: no meaningful trade.
    assert_eq!(defi::calculate_slippage(0, 0, 10), 100);
    // The pool price only rises on a plain swap, so the decrease branch
    // reports zero slippage.
    assert_eq!(defi::calculate_slippage(1000, 10000, 10000), 0);
    // A trade of the full output reserve drains the pool.
    assert_eq!(defi::calculate_slippage(100, 0, 1), 100);
}

#[test]
fn test_check_slippage_tolerance() {
    assert!(defi::check_slippage_tolerance(5, 5));
    assert!(!defi::check_slippage_tolerance(6, 5));
}

#[test]
fn test_calculate_pool_value() {
    // 500 + 2000 * 250000 / 1000000 == 1000.
    assert_eq!(defi::calculate_pool_value(500, 2000, 250000), 1000);
}

#[test]
fn test_calculate_fees_collected() {
    // 1003 * 3 / 1003 == 3.
    assert_eq!(defi::calculate_fees_collected(1003, 3, 1000), 3);
    assert_eq!(defi::calculate_fees_collected(100, 0, 0), 0);
}

#[test]
fn test_simulate_pool_state() {
    assert_eq!(defi::simulate_pool_state(1000, 2000, 50, 30), (1050, 1970));
    // Paying out at least the whole reserve empties it.
    assert_eq!(defi::simulate_pool_state(1000, 2000, 50, 2000), (1050, 0));
    assert_eq!(defi::simulate_pool_state(1000, 2000, 50, 3000), (1050, 0));
}

#[test]
fn test_check_pool_health() {
    assert!(defi::check_pool_health(1001, 1001));
    assert!(!defi::check_pool_health(1000, 1001));
    assert!(!defi::check_pool_health(1001, 1000));
}

#[test]
fn test_distribute_fees() {
    assert_eq!(defi::distribute_fees(100), (50, 30, 20));
    assert_eq!(defi::distribute_fees(0), (0, 0, 0));
    assert_eq!(defi::distribute_fees(7), (3, 2, 2));
}

#[test]
fn test_attempt_partial_trade() {
    // Half of 2000 passes the balance check and the calm pool's slippage
    // is 0, within tolerance.
    let expected = defi::calculate_swap_output_with_fee(1000, 100000, 100000, 3, 1000);
    assert_eq!(
        defi::attempt_partial_trade(2000, 5000, 100000, 100000, 3, 1000, 5),
        expected
    );
    // A half amount of zero fails outright.
    assert_eq!(defi::attempt_partial_trade(1, 5000, 100000, 100000, 3, 1000, 5), 0);
    // A half amount above the balance fails.
    assert_eq!(defi::attempt_partial_trade(2000, 999, 100000, 100000, 3, 1000, 5), 0);
}

#[test]
fn test_energy_validate_inputs() {
    assert!(energy::validate_inputs(100, 50, 2));
    assert!(!energy::validate_inputs(100, 50, 0));
    assert!(!energy::validate_inputs(50, 100, 2));
}

#[test]
fn test_simulate_historical_usage() {
    // (900 + 2000 + 1050) / 4 == 987.
    assert_eq!(energy::simulate_historical_usage(1000), 987);
    // (0 + 100 + 100) / 4 == 50.
    assert_eq!(energy::simulate_historical_usage(50), 50);
}

#[test]
fn test_compute_line_losses() {
    // Factor (2000 / 1000) * 2 == 4; 10000 * 4 / 100 == 400.
    assert_eq!(energy::compute_line_losses(10000, 2000), 400);
    assert_eq!(energy::compute_line_losses(10000, 0), 0);
}

#[test]
fn test_compute_overhead_adjustment() {
    assert_eq!(energy::compute_overhead_adjustment(1000), 1020);
    // Tiny totals get padded: 2 + 0 < 10, delta 8, minus 2 leaves 6, so 8.
    assert_eq!(energy::compute_overhead_adjustment(2), 8);
    assert_eq!(energy::compute_overhead_adjustment(0), 8);
}

#[test]
fn test_check_system_health() {
    assert!(energy::check_system_health(10000, 1020, 400));
    assert!(!energy::check_system_health(1000, 600, 350));
}

#[test]
fn test_per_device_metric() {
    assert_eq!(energy::per_device_metric(100, 4), 25);
    assert_eq!(energy::per_device_metric(100, 0), 100);
}

#[test]
fn test_simulate_battery() {
    // Draw 200, inject 100, overhead 100.
    assert_eq!(energy::simulate_battery(10000, 2000), 9800);
    // A small net clamps at zero on the draw.
    assert_eq!(energy::simulate_battery(0, 2000), 0);
}

#[test]
fn test_apply_peak_usage_penalty() {
    // 1020 * 5 == 5100 > 100, so the penalty is 5000.
    assert_eq!(energy::apply_peak_usage_penalty(9800, 1020), 4800);
    // 10 * 5 == 50 <= 100: penalty is 100 - 50 - 10 - 5 == 35.
    assert_eq!(energy::apply_peak_usage_penalty(100, 10), 65);
}

#[test]
fn test_apply_regulatory_adjustments() {
    assert_eq!(energy::apply_regulatory_adjustments(100), 60);
    assert_eq!(energy::apply_regulatory_adjustments(10), 0);
}

#[test]
fn test_apply_quality_factor() {
    // Base 200, half 100, deduction 105.
    assert_eq!(energy::apply_quality_factor(4800, 2000, 10), 4695);
    assert_eq!(energy::apply_quality_factor(4800, 2000, 0), 4795);
}

#[test]
fn test_apply_off_peak_rebate() {
    assert_eq!(energy::apply_off_peak_rebate(4695), 4595);
    // Below the bar: minus 50, minus 20.
    assert_eq!(energy::apply_off_peak_rebate(2000), 1930);
    assert_eq!(energy::apply_off_peak_rebate(60), 0);
}

#[test]
fn test_apply_auditing_adjustments() {
    assert_eq!(energy::apply_auditing_adjustments(100), 70);
    assert_eq!(energy::apply_auditing_adjustments(12), 0);
}

#[test]
fn test_energy_combine_results() {
    assert_eq!(energy::combine_results(&[1, 2, 4]), 7);
    assert_eq!(energy::combine_results(&[]), 0);
}

#[test]
fn test_energy_partial_fallback() {
    // Half consumption passes the health check on the first stage.
    let (tp, tc, dc, bp) = (100000u64, 10000u64, 10u64, 2u64);
    let half = tc / 2;
    let hu = energy::simulate_historical_usage(half);
    let ll = energy::compute_line_losses(tp, hu);
    let oa = energy::compute_overhead_adjustment(half);
    assert!(energy::check_system_health(tp, oa, ll));
    let net_after = tp - oa - ll;
    let net_battery = energy::simulate_battery(net_after, hu);
    let post_penalty = energy::apply_peak_usage_penalty(net_battery, oa);
    let quality = energy::apply_quality_factor(post_penalty, hu, dc);
    let off_peak = energy::apply_off_peak_rebate(quality);
    let cost = energy::per_device_metric(off_peak, dc) * bp;
    let reg = energy::apply_regulatory_adjustments(cost);
    let final_cost = energy::apply_auditing_adjustments(reg);
    let expected = energy::combine_results(&[net_after, final_cost, half, ll, off_peak, quality]);
    assert_eq!(energy::partial_fallback(tp, tc, dc, bp), expected);
    // Nothing produced: no halving can help.
    assert_eq!(energy::partial_fallback(0, 1000, 10, 2), 0);
}

#[test]
fn test_validate_loan_health() {
    assert!(financial::validate_loan_health(400, 100));
    assert!(financial::validate_loan_health(200, 100));
    assert!(!financial::validate_loan_health(199, 100));
    assert!(!financial::validate_loan_health(400, 0));
}

#[test]
fn test_compute_compound_interest() {
    // Ordinary basis points truncate to a zero per-slice rate.
    assert_eq!(financial::compute_compound_interest(1000, 5000, 5), 0);
    assert_eq!(financial::compute_compound_interest(1000, 5000, 0), 0);
    // 100000 bps over 2 slices: rate 5 per slice, 1000 -> 6000 -> 36000.
    assert_eq!(financial::compute_compound_interest(1000, 100000, 2), 35000);
}

#[test]
fn test_compute_staking_rewards_bigint() {
    // Rate truncates to zero: no reward.
    assert_eq!(financial::compute_staking_rewards_bigint(1000, 50, 600, 3), 0);
    assert_eq!(financial::compute_staking_rewards_bigint(1000, 50, 600, 0), 0);
    // 90000 bps over 3 slices: rate 3; staked 500 grows by 4x per slice.
    assert_eq!(financial::compute_staking_rewards_bigint(1000, 50, 90000, 3), 31500);
    // A huge rate saturates the 32-bit report.
    assert_eq!(
        financial::compute_staking_rewards_bigint(u32::MAX, 100, u32::MAX, 1),
        u32::MAX
    );
}

#[test]
fn test_simulate_liquidity_pool_shares() {
    // Both rates truncate to zero: shares only move by the re-stake rule,
    // which 2000 never triggers.
    assert_eq!(financial::simulate_liquidity_pool_shares_complex(2000, 5, 100, 50), 2000);
    assert_eq!(financial::simulate_liquidity_pool_shares_complex(2000, 0, 100, 50), 2000);
    // Decay rate 2 wipes the shares, and half of nothing is re-staked.
    assert_eq!(financial::simulate_liquidity_pool_shares_complex(2000, 1, 20000, 0), 0);
    // Fee rate 1 takes everything after no decay.
    assert_eq!(financial::simulate_liquidity_pool_shares_complex(2000, 1, 0, 10000), 0);
}

#[test]
fn test_partial_fallback_loan() {
    // Halving brings the borrow into health: 400 * 100 / 100 == 400.
    let interest = financial::compute_compound_interest(100, 5000, 3);
    let staking = financial::compute_staking_rewards_bigint(400, 50, 600, 3);
    let expected = financial::combine_results(&[100, interest, staking, 400]);
    assert_eq!(financial::partial_fallback_loan(400, 200, 5000, 50, 600), expected);
    // Even a quarter of the borrow is too much for no collateral.
    assert_eq!(financial::partial_fallback_loan(0, 200, 5000, 50, 600), 0);
}

#[test]
fn test_financial_combine_results() {
    assert_eq!(financial::combine_results(&[1, 2, 4]), 7);
    assert_eq!(financial::combine_results(&[]), 0);
}

#[test]
fn test_validate_action_requirements() {
    assert!(game::validate_action_requirements(100, 10, 100, 10));
    assert!(!game::validate_action_requirements(99, 10, 100, 10));
    assert!(!game::validate_action_requirements(100, 9, 100, 10));
}

#[test]
fn test_compute_combat_damage() {
    assert_eq!(game::compute_combat_damage(10, 4), 25);
    // A zero defense counts as one.
    assert_eq!(game::compute_combat_damage(10, 0), 100);
    // The squared attack saturates in 32 bits before the division.
    assert_eq!(game::compute_combat_damage(u32::MAX, 1), u32::MAX as u64);
}

#[test]
fn test_forge_legendary_item_materials() {
    assert_eq!(game::forge_legendary_item_materials(2, 3), 6000);
    assert_eq!(game::forge_legendary_item_materials(0, 3), 0);
    // The exact product exceeds 64 bits and saturates only at the end.
    assert_eq!(game::forge_legendary_item_materials(u64::MAX, 2), u64::MAX);
}

#[test]
fn test_compute_experience_for_level() {
    // 10^3 + 10^2 == 1100.
    assert_eq!(game::compute_experience_for_level(10, 10), 1100);
    assert_eq!(game::compute_experience_for_level(0, 0), 0);
    // (2^32 - 1)^3 exceeds 64 bits.
    assert_eq!(game::compute_experience_for_level(u32::MAX, 0), u64::MAX);
}

#[test]
fn test_game_partial_fallback() {
    assert_eq!(game::partial_fallback(1000, 1000, 10, 6, 0), 0);
    // Halved materials 5 and rarity 3 cost 15000, which the player covers.
    let expected = game::combine_results(&[15000u32, 3, 1_000_000u32, 1000]) as u64;
    assert_eq!(game::partial_fallback(1_000_000, 1000, 10, 6, 3), expected);
    // A player with nothing exhausts every attempt.
    assert_eq!(game::partial_fallback(0, 0, 10, 6, 3), 0);
}

#[test]
fn test_game_combine_results() {
    assert_eq!(game::combine_results(&[1, 2, 4]), 7);
    assert_eq!(game::combine_results_64(&[1, 2, 4]), 7);
    assert_eq!(game::combine_results_64(&[]), 0);
}
