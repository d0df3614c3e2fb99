//! Energy-usage oracle: produced and consumed totals are screened, then run
//! through a chain of adjustments (historical smoothing, line losses,
//! overhead, battery, peak penalty, quality factor, rebate, regulatory and
//! auditing deductions) whose stages all use saturating arithmetic. A
//! failed health check sends the consumption through up to three halvings.

use vstd::prelude::*;

use crate::arith::{div0_u64, sat_add_u64, sat_mul_u64, sat_sub_u64};
use crate::arith::{safe_add, safe_div, safe_mul, safe_sub};
use crate::bits::xor_all;

verus! {

/// Inputs are consistent when devices exist and no more was consumed than
/// produced.
pub fn validate_inputs(total_produced: u64, total_consumed: u64, device_count: u64) -> (r: bool)
    ensures
        r == (device_count != 0 && total_consumed <= total_produced),
{
    if device_count == 0 {
        return false;
    }
    if total_consumed > total_produced {
        return false;
    }
    true
}

/// Value of the smoothed usage: the weighted average (weights 1, 2, 1) of
/// the consumption shifted down by 100, itself, and up by 50.
pub open spec fn historical_usage_val(total_consumed: int) -> int {
    let low = sat_sub_u64(total_consumed, 100);
    let mid = sat_mul_u64(total_consumed, 2);
    let high = sat_add_u64(total_consumed, 50);
    div0_u64(sat_add_u64(sat_add_u64(low, mid), high), 4)
}

/// Smooths the consumption over a pretend three-sample history.
pub fn simulate_historical_usage(total_consumed: u64) -> (r: u64)
    ensures
        r == historical_usage_val(total_consumed as int),
{
    let low = safe_sub(total_consumed, 100);
    let high = safe_add(total_consumed, 50);
    let mut weighted_sum: u64 = 0;
    let mut weight_total: u64 = 0;
    weighted_sum = safe_add(weighted_sum, safe_mul(low, 1));
    weight_total = safe_add(weight_total, 1);
    weighted_sum = safe_add(weighted_sum, safe_mul(total_consumed, 2));
    weight_total = safe_add(weight_total, 2);
    weighted_sum = safe_add(weighted_sum, safe_mul(high, 1));
    weight_total = safe_add(weight_total, 1);
    safe_div(weighted_sum, weight_total)
}

/// Value of the line losses: two permille steps of the historical usage
/// scale the production, over 100.
pub open spec fn line_losses_val(total_produced: int, historical_usage: int) -> int {
    let loss_factor = if historical_usage == 0 {
        0
    } else {
        sat_mul_u64(historical_usage / 1000, 2)
    };
    div0_u64(sat_mul_u64(total_produced, loss_factor), 100)
}

/// Losses on the lines, derived from production and smoothed usage.
pub fn compute_line_losses(total_produced: u64, historical_usage: u64) -> (r: u64)
    ensures
        r == line_losses_val(total_produced as int, historical_usage as int),
{
    let loss_factor = if historical_usage == 0 {
        0
    } else {
        safe_mul(safe_div(historical_usage, 1000), 2)
    };
    safe_div(safe_mul(total_produced, loss_factor), 100)
}

/// Value of the overhead adjustment: add two percent, and pad tiny totals
/// through a chain of clamped corrections.
pub open spec fn overhead_adjustment_val(total_consumed: int) -> int {
    let overhead = div0_u64(sat_mul_u64(total_consumed, 2), 100);
    let adjusted = sat_add_u64(total_consumed, overhead);
    if adjusted < 10 {
        let delta = sat_sub_u64(10, adjusted);
        let delta_extra = sat_sub_u64(delta, 2);
        let pseudo_adjusted = sat_add_u64(adjusted, delta_extra);
        sat_sub_u64(sat_add_u64(pseudo_adjusted, 5), 5)
    } else {
        adjusted
    }
}

/// Overhead-adjusted consumption.
pub fn compute_overhead_adjustment(total_consumed: u64) -> (r: u64)
    ensures
        r == overhead_adjustment_val(total_consumed as int),
{
    let overhead = safe_div(safe_mul(total_consumed, 2), 100);
    let adjusted = safe_add(total_consumed, overhead);
    if adjusted < 10 {
        let delta = safe_sub(10, adjusted);
        let delta_extra = safe_sub(delta, 2);
        let pseudo_adjusted = safe_add(adjusted, delta_extra);
        safe_sub(safe_add(pseudo_adjusted, 5), 5)
    } else {
        adjusted
    }
}

/// What is left of the production after the adjusted consumption and the
/// line losses (clamping at zero at each step).
pub open spec fn net_energy_val(
    total_produced: int,
    total_consumed_adjusted: int,
    line_losses: int,
) -> int {
    sat_sub_u64(sat_sub_u64(total_produced, total_consumed_adjusted), line_losses)
}

/// The system is healthy when more than 100 units remain net.
pub fn check_system_health(
    total_produced: u64,
    total_consumed_adjusted: u64,
    line_losses: u64,
) -> (r: bool)
    ensures
        r == (net_energy_val(total_produced as int, total_consumed_adjusted as int,
        line_losses as int) > 100),
{
    let remainder = safe_sub(total_produced, total_consumed_adjusted);
    let net = safe_sub(remainder, line_losses);
    net > 100
}

/// Per-device share of a value; a zero device count counts as one.
pub fn per_device_metric(value: u64, device_count: u64) -> (r: u64)
    ensures
        r == value as int / (if device_count == 0 {
            1int
        } else {
            device_count as int
        }),
{
    let d = if device_count == 0 {
        1
    } else {
        device_count
    };
    safe_div(value, d)
}

/// Folds partial results into one word by exclusive-or.
pub fn combine_results(results: &[u64]) -> (r: u64)
    ensures
        r == xor_all(results@),
{
    crate::bits::xor_fold_u64(results)
}

/// Value after the battery cycle: a tenth is drawn, half of the draw is
/// injected back, and the difference is the battery's overhead.
pub open spec fn battery_val(net_energy: int, historical_usage: int) -> int {
    let battery_draw = historical_usage / 10;
    let battery_injection = battery_draw / 2;
    let battery_overhead = sat_sub_u64(battery_draw, battery_injection);
    let after_draw = sat_sub_u64(net_energy, battery_draw);
    let after_injection = sat_add_u64(after_draw, battery_injection);
    sat_sub_u64(after_injection, battery_overhead)
}

/// Runs the battery cycle against the net energy.
pub fn simulate_battery(net_energy: u64, historical_usage: u64) -> (r: u64)
    ensures
        r == battery_val(net_energy as int, historical_usage as int),
{
    let battery_draw = safe_div(historical_usage, 10);
    let battery_injection = safe_div(battery_draw, 2);
    let battery_overhead = safe_sub(battery_draw, battery_injection);
    let after_draw = safe_sub(net_energy, battery_draw);
    let after_injection = safe_add(after_draw, battery_injection);
    safe_sub(after_injection, battery_overhead)
}

/// Value after the peak-usage penalty, whose base depends on whether five
/// times the adjusted consumption clears 100.
pub open spec fn peak_penalty_val(net_energy: int, overhead_adjusted_consumption: int) -> int {
    let multiplied = sat_mul_u64(overhead_adjusted_consumption, 5);
    let penalty_base = if multiplied > 100 {
        sat_sub_u64(multiplied, 100)
    } else {
        sat_sub_u64(sat_sub_u64(sat_sub_u64(100, multiplied), 10), 5)
    };
    sat_sub_u64(net_energy, penalty_base)
}

/// Applies the peak-usage penalty to the net energy.
pub fn apply_peak_usage_penalty(net_energy: u64, overhead_adjusted_consumption: u64) -> (r: u64)
    ensures
        r == peak_penalty_val(net_energy as int, overhead_adjusted_consumption as int),
{
    let multiplied = safe_mul(overhead_adjusted_consumption, 5);
    let penalty_base = if multiplied > 100 {
        safe_sub(multiplied, 100)
    } else {
        let temp = safe_sub(100, multiplied);
        let temp2 = safe_sub(temp, 10);
        safe_sub(temp2, 5)
    };
    safe_sub(net_energy, penalty_base)
}

/// Value after the fixed regulatory deductions of 20, 5 and their
/// difference 15.
pub open spec fn regulatory_val(cost_per_device: int) -> int {
    sat_sub_u64(sat_sub_u64(sat_sub_u64(cost_per_device, 20), 5), sat_sub_u64(20, 5))
}

/// Applies the layered regulatory deductions to the per-device cost.
pub fn apply_regulatory_adjustments(cost_per_device: u64) -> (r: u64)
    ensures
        r == regulatory_val(cost_per_device as int),
{
    let adjustment_a: u64 = 20;
    let adjustment_b: u64 = 5;
    let adjustment_c = safe_sub(adjustment_a, adjustment_b);
    let after_a = safe_sub(cost_per_device, adjustment_a);
    let after_b = safe_sub(after_a, adjustment_b);
    safe_sub(after_b, adjustment_c)
}

/// Value after the quality deduction: half of the per-device historical
/// usage plus 10, reached through a neutral add-and-subtract chain.
pub open spec fn quality_factor_val(net_energy: int, historical_usage: int, device_count: int)
    -> int {
    let base_q = if device_count == 0 {
        0
    } else {
        historical_usage / device_count
    };
    let half_base = base_q / 2;
    let with_fixed_sub = sat_sub_u64(sat_add_u64(half_base, 10), 5);
    let quality_deduction = sat_sub_u64(sat_add_u64(with_fixed_sub, 5), 5);
    sat_sub_u64(net_energy, quality_deduction)
}

/// Applies the quality deduction derived from usage and device count.
pub fn apply_quality_factor(net_energy: u64, historical_usage: u64, device_count: u64) -> (r: u64)
    ensures
        r == quality_factor_val(net_energy as int, historical_usage as int, device_count as int),
{
    let base_q = if device_count == 0 {
        0
    } else {
        safe_div(historical_usage, device_count)
    };
    let half_base = safe_div(base_q, 2);
    let with_fixed_sub = safe_sub(safe_add(half_base, 10), 5);
    let quality_deduction = safe_sub(safe_add(with_fixed_sub, 5), 5);
    safe_sub(net_energy, quality_deduction)
}

/// Value after the off-peak step: a 100-unit rebate above 2000, else a
/// 70-unit deduction reached through a neutral add-and-subtract chain.
pub open spec fn off_peak_rebate_val(net_energy_after_quality: int) -> int {
    if net_energy_after_quality > 2000 {
        sat_sub_u64(net_energy_after_quality, 100)
    } else {
        let step1 = sat_sub_u64(net_energy_after_quality, 50);
        let step2 = sat_sub_u64(step1, 20);
        sat_sub_u64(sat_add_u64(step2, 5), 5)
    }
}

/// Applies the off-peak rebate or the ineligibility deduction.
pub fn apply_off_peak_rebate(net_energy_after_quality: u64) -> (r: u64)
    ensures
        r == off_peak_rebate_val(net_energy_after_quality as int),
{
    if net_energy_after_quality > 2000 {
        safe_sub(net_energy_after_quality, 100)
    } else {
        let step1 = safe_sub(net_energy_after_quality, 50);
        let step2 = safe_sub(step1, 20);
        safe_sub(safe_add(step2, 5), 5)
    }
}

/// Value after the auditing layers of 10, 15 and 5.
pub open spec fn auditing_val(final_cost: int) -> int {
    sat_sub_u64(sat_sub_u64(sat_sub_u64(final_cost, 10), 15), 5)
}

/// Applies the three auditing layers to the final cost.
pub fn apply_auditing_adjustments(final_cost: u64) -> (r: u64)
    ensures
        r == auditing_val(final_cost as int),
{
    let layer1: u64 = 10;
    let layer2: u64 = 15;
    let layer3: u64 = 5;
    let after1 = safe_sub(final_cost, layer1);
    let after2 = safe_sub(after1, layer2);
    safe_sub(after2, layer3)
}

/// Whether one fallback stage (production against a reduced consumption)
/// passes the health check.
pub open spec fn stage_healthy(total_produced: int, consumed: int) -> bool {
    net_energy_val(
        total_produced,
        overhead_adjustment_val(consumed),
        line_losses_val(total_produced, historical_usage_val(consumed)),
    ) > 100
}

/// The folded output of one healthy fallback stage: the full adjustment
/// chain run on the reduced consumption.
pub open spec fn stage_output_val(
    total_produced: int,
    consumed: int,
    device_count: int,
    baseline_price: int,
) -> u64 {
    let hu = historical_usage_val(consumed);
    let ll = line_losses_val(total_produced, hu);
    let oa = overhead_adjustment_val(consumed);
    let net_after = net_energy_val(total_produced, oa, ll);
    let net_battery = battery_val(net_after, hu);
    let post_penalty = peak_penalty_val(net_battery, oa);
    let quality = quality_factor_val(post_penalty, hu, device_count);
    let off_peak = off_peak_rebate_val(quality);
    let per_device = off_peak / (if device_count == 0 {
        1int
    } else {
        device_count
    });
    let cost_per_device = sat_mul_u64(per_device, baseline_price);
    let reg_adjust = regulatory_val(cost_per_device);
    let final_cost = auditing_val(reg_adjust);
    xor_all(
        seq![
            net_after as u64,
            final_cost as u64,
            consumed as u64,
            ll as u64,
            off_peak as u64,
            quality as u64,
        ],
    )
}

/// The value of the fallback: the first of the halved, quartered and
/// eighth consumption whose stage is healthy yields that stage's folded
/// output; if none is, the sentinel 0.
pub open spec fn partial_fallback_val(
    total_produced: u64,
    total_consumed: u64,
    device_count: u64,
    baseline_price: u64,
) -> u64 {
    let tp = total_produced as int;
    let half = total_consumed as int / 2;
    if stage_healthy(tp, half) {
        stage_output_val(tp, half, device_count as int, baseline_price as int)
    } else {
        let quarter = half / 2;
        if stage_healthy(tp, quarter) {
            stage_output_val(tp, quarter, device_count as int, baseline_price as int)
        } else {
            let eighth = quarter / 2;
            if stage_healthy(tp, eighth) {
                stage_output_val(tp, eighth, device_count as int, baseline_price as int)
            } else {
                0
            }
        }
    }
}

/// One fallback stage run to the end: assumes its health check has passed
/// and folds the chain's landmark values into one word.
fn run_stage(total_produced: u64, consumed: u64, device_count: u64, baseline_price: u64) -> (r:
    u64)
    ensures
        r == stage_output_val(
            total_produced as int,
            consumed as int,
            device_count as int,
            baseline_price as int,
        ),
{
    let hu = simulate_historical_usage(consumed);
    let ll = compute_line_losses(total_produced, hu);
    let oa = compute_overhead_adjustment(consumed);
    let net_after = safe_sub(safe_sub(total_produced, oa), ll);
    let net_battery = simulate_battery(net_after, hu);
    let post_penalty = apply_peak_usage_penalty(net_battery, oa);
    let quality = apply_quality_factor(post_penalty, hu, device_count);
    let off_peak = apply_off_peak_rebate(quality);
    let cost_per_device = safe_mul(per_device_metric(off_peak, device_count), baseline_price);
    let reg_adjust = apply_regulatory_adjustments(cost_per_device);
    let final_cost = apply_auditing_adjustments(reg_adjust);
    let parts: [u64; 6] = [net_after, final_cost, consumed, ll, off_peak, quality];
    let r = combine_results(vstd::array::array_as_slice(&parts));
    proof {
        assert(parts@ =~= seq![net_after, final_cost, consumed, ll, off_peak, quality]);
    }
    r
}

/// Fallback when the system is unhealthy: try half, then a quarter, then
/// an eighth of the consumption, and report the first healthy stage's
/// folded output, or the sentinel 0.
pub fn partial_fallback(
    total_produced: u64,
    total_consumed: u64,
    device_count: u64,
    baseline_price: u64,
) -> (r: u64)
    ensures
        r == partial_fallback_val(total_produced, total_consumed, device_count, baseline_price),
{
    let half_consumed = safe_div(total_consumed, 2);
    let historical_usage = simulate_historical_usage(half_consumed);
    let line_losses = compute_line_losses(total_produced, historical_usage);
    let overhead_adj = compute_overhead_adjustment(half_consumed);

    if !check_system_health(total_produced, overhead_adj, line_losses) {
        let quarter_consumed = safe_div(half_consumed, 2);
        let hist_quarter = simulate_historical_usage(quarter_consumed);
        let line_losses_q = compute_line_losses(total_produced, hist_quarter);
        let overhead_q = compute_overhead_adjustment(quarter_consumed);

        if !check_system_health(total_produced, overhead_q, line_losses_q) {
            let eighth_consumed = safe_div(quarter_consumed, 2);
            let hist_eighth = simulate_historical_usage(eighth_consumed);
            let line_losses_e = compute_line_losses(total_produced, hist_eighth);
            let overhead_e = compute_overhead_adjustment(eighth_consumed);

            if !check_system_health(total_produced, overhead_e, line_losses_e) {
                return 0;
            }
            return run_stage(total_produced, eighth_consumed, device_count, baseline_price);
        }
        return run_stage(total_produced, quarter_consumed, device_count, baseline_price);
    }
    run_stage(total_produced, half_consumed, device_count, baseline_price)
}

} // verus!
