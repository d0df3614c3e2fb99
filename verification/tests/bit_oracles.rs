use num_bigint::BigUint;

use numeric_oracles::data_provenance;
use numeric_oracles::regulatory_compliance;
use numeric_oracles::smart_contract_audit;

#[test]
fn test_validate_environment() {
    assert!(data_provenance::validate_environment(0b101, 0b101));
    assert!(data_provenance::validate_environment(0b1111, 0b101));
    assert!(!data_provenance::validate_environment(0b100, 0b101));
    assert!(!data_provenance::validate_environment(0, 0b101));
    assert!(data_provenance::validate_environment(0, 0));
}

#[test]
fn test_compute_data_lineage_hash_matches_formula() {
    let cases: [(u64, u32, u64); 3] = [(1, 0, 0), (123456789, 0b101, 42), (u64::MAX, u32::MAX, u64::MAX)];
    for (pid, env, quality) in cases {
        let expected = (BigUint::from(pid) << 3u32)
            * (BigUint::from(env) + 1u32)
            * (BigUint::from(quality) + 1u32)
            * BigUint::from(104729u32);
        assert_eq!(data_provenance::compute_data_lineage_hash(pid, env, quality), expected);
    }
}

#[test]
fn test_transform_certification_bitmask() {
    for mask in [0u32, 1, 0b101, 0xdead_beef, u32::MAX] {
        let rotated = mask.rotate_left(5);
        let shifted = rotated >> 2;
        let combined = shifted | mask;
        let expected = combined ^ combined.count_ones();
        assert_eq!(data_provenance::transform_certification_bitmask(mask), expected);
    }
}

#[test]
fn test_combine_final_formula() {
    let lineage = BigUint::from(0x0123_4567_89ab_cdefu64) + (BigUint::from(1u32) << 100u32);
    let quality = 77u64;
    let cert = 0x00ff_00ffu32;
    let lineage_lo = 0x0123_4567_89ab_cdefu64;
    let expected = (lineage_lo.rotate_left(7) ^ 1) ^ (cert as u64 ^ quality);
    assert_eq!(data_provenance::combine_final(&lineage, true, cert, quality), expected);
    let expected_invalid = lineage_lo.rotate_left(7) ^ (cert as u64 ^ quality);
    assert_eq!(data_provenance::combine_final(&lineage, false, cert, quality), expected_invalid);
}

#[test]
fn test_data_provenance_fallback_exhausts() {
    // A zero flag never gains bit 0 by shifting, and a zero quality score
    // blocks the halving branch, so every attempt is spent.
    assert_eq!(data_provenance::partial_fallback(0, 0, 5, 7, 3), 0);
    assert_eq!(data_provenance::partial_fallback(0b101, 10, 5, 7, 0), 0);
}

#[test]
fn test_data_provenance_fallback_half_quality() {
    // The shifted flag loses bit 0, but the original flags are valid and
    // the quality halves to a nonzero value.
    let (pid, env, quality, cert) = (9u64, 0b101u32, 10u64, 3u32);
    let hash = data_provenance::compute_data_lineage_hash(pid, env, 5);
    let transform = data_provenance::transform_certification_bitmask(cert);
    let expected = data_provenance::combine_final(&hash, true, transform, 5);
    assert_eq!(data_provenance::partial_fallback(env, quality, pid, cert, 3), expected);
}

#[test]
fn test_check_regulatory_flags() {
    assert!(regulatory_compliance::check_regulatory_flags(0b1011, 0b1011));
    assert!(regulatory_compliance::check_regulatory_flags(0b1111, 0b1011));
    assert!(!regulatory_compliance::check_regulatory_flags(0b1001, 0b1011));
}

#[test]
fn test_compliance_popcount() {
    assert_eq!(regulatory_compliance::compliance_popcount(0), 0);
    assert_eq!(regulatory_compliance::compliance_popcount(0b1011), 3);
    assert_eq!(regulatory_compliance::compliance_popcount(u32::MAX), 32);
    assert_eq!(regulatory_compliance::compliance_popcount(1 << 31), 1);
}

#[test]
fn test_transform_compliance_flags() {
    for flags in [0u32, 0b1011, 0x1234_5678, u32::MAX] {
        let expected = ((flags.rotate_left(13) >> 2) | 0b10101010) ^ flags;
        assert_eq!(regulatory_compliance::transform_compliance_flags(flags), expected);
    }
}

#[test]
fn test_compute_carbon_offset_big() {
    // (1 + 2) * (3 + 1) << 2 == 48.
    assert_eq!(
        regulatory_compliance::compute_carbon_offset_big(1, 2, 3),
        BigUint::from(48u32)
    );
    let expected = (BigUint::from(u64::MAX) + BigUint::from(7u32)) * BigUint::from(11u32) << 2u32;
    assert_eq!(regulatory_compliance::compute_carbon_offset_big(u64::MAX, 7, 10), expected);
}

#[test]
fn test_baseline_compliance_check() {
    // (2^2 + 3^3 + 10000) * 5 == 50155.
    assert_eq!(
        regulatory_compliance::baseline_compliance_check(2, 3, 5),
        BigUint::from(50155u32)
    );
    assert_eq!(
        regulatory_compliance::baseline_compliance_check(2, 3, 0),
        BigUint::from(0u32)
    );
}

#[test]
fn test_combine_biguint_xor() {
    let value = BigUint::from(0xfedc_ba98_7654_3210u64) + (BigUint::from(3u32) << 64u32);
    let lower = 0xfedc_ba98_7654_3210u64;
    assert_eq!(
        regulatory_compliance::combine_biguint_xor(&value, 5),
        lower.rotate_left(5) ^ 5
    );
    assert_eq!(
        regulatory_compliance::combine_biguint_xor(&value, 64),
        lower ^ 64
    );
}

#[test]
fn test_partial_fallback_compliance() {
    assert_eq!(regulatory_compliance::partial_fallback_compliance(1, 2, 3, 4, 0), 0);
    // Halved emissions still clear the threshold: offset is
    // (50000 + 0) * 2 * 4 = 400000 > 50000.
    let result = regulatory_compliance::partial_fallback_compliance(100000, 0, 0b1011, 1, 3);
    let offset = regulatory_compliance::compute_carbon_offset_big(50000, 0, 1);
    let baseline = regulatory_compliance::baseline_compliance_check(50000, 0, 1);
    let tf = regulatory_compliance::transform_compliance_flags(0b1011);
    let pop = regulatory_compliance::compliance_popcount(tf);
    let expected = regulatory_compliance::combine_results_64(&[
        regulatory_compliance::combine_biguint_xor(&offset, pop),
        regulatory_compliance::combine_biguint_xor(&baseline, pop / 2),
        50000,
        0,
        tf as u64,
    ]);
    assert_eq!(result, expected);
    // Tiny figures never clear the threshold, so the budget is spent.
    assert_eq!(regulatory_compliance::partial_fallback_compliance(8, 8, 0, 1, 3), 0);
}

#[test]
fn test_check_coverage() {
    assert!(smart_contract_audit::check_minimum_coverage(0b111, 0b101));
    assert!(!smart_contract_audit::check_minimum_coverage(0b010, 0b101));
    assert!(smart_contract_audit::check_full_coverage(u32::MAX));
    assert!(!smart_contract_audit::check_full_coverage(u32::MAX - 1));
}

#[test]
fn test_compute_audit_complexity() {
    // (1 + 1) * 2^3 * (3 + 7) + 4^2 == 176.
    assert_eq!(
        smart_contract_audit::compute_audit_complexity(1, 2, 3, 4),
        BigUint::from(176u32)
    );
    let gas = BigUint::from(u64::MAX);
    let expected = (BigUint::from(11u32)) * (&gas * &gas * &gas) * BigUint::from(27u32)
        + BigUint::from(9u32);
    assert_eq!(
        smart_contract_audit::compute_audit_complexity(10, u64::MAX, 20, 3),
        expected
    );
}

#[test]
fn test_compute_audit_score() {
    let complexity = BigUint::from(1000u32);
    // Denominator 10 + 10 + 80 == 100.
    assert_eq!(
        smart_contract_audit::compute_audit_score(&complexity, 10, 10, 80),
        BigUint::from(10u32)
    );
    assert_eq!(
        smart_contract_audit::compute_audit_score(&complexity, 0, 0, 0),
        BigUint::from(0u32)
    );
    // The denominator saturates instead of wrapping.
    assert_eq!(
        smart_contract_audit::compute_audit_score(&BigUint::from(u64::MAX), 1, 1, u64::MAX),
        BigUint::from(1u32)
    );
}

#[test]
fn test_combine_biguint_with_bitops() {
    let value = BigUint::from(1_000_000u64);
    let (cov, gas, fc) = (0b1100_0011u32, 777u64, 9u32);
    let lower = 1_000_000u64;
    let div_result = lower / 5;
    let popc = cov.count_ones() as u64;
    let lz = cov.leading_zeros() as u64;
    let rotated = lower.rotate_right(cov & 0xFF);
    let expected = ((rotated ^ popc) ^ ((lz | fc as u64) ^ div_result)) ^ gas;
    assert_eq!(
        smart_contract_audit::combine_biguint_with_bitops(&value, cov, gas, fc),
        expected
    );
}

#[test]
fn test_partial_fallback_audit() {
    assert_eq!(smart_contract_audit::partial_fallback_audit(0b111, 100, 10, 0b1, 0, 2), 0);
    // Coverage shifted down two bits still covers the single required bit.
    let result = smart_contract_audit::partial_fallback_audit(0b100, 800, 10, 0b1, 5, 2);
    let comp = smart_contract_audit::compute_audit_complexity(0b1, 100, 7, 2);
    let score = smart_contract_audit::compute_audit_score(&comp, 0b1, 7, 1);
    let combined = smart_contract_audit::combine_biguint_with_bitops(&score, 0b1, 100, 7);
    assert_eq!(result, combined.saturating_mul(2));
    // Coverage that shifts away entirely exhausts the attempts.
    assert_eq!(smart_contract_audit::partial_fallback_audit(0b10, 800, 10, 0b1, 5, 2), 0);
}

#[test]
fn test_audit_combine_results_64() {
    assert_eq!(smart_contract_audit::combine_results_64(&[]), u64::MAX);
    assert_eq!(
        smart_contract_audit::combine_results_64(&[1, 2, 4]),
        (1u64 ^ 2 ^ 4) ^ u64::MAX
    );
}
