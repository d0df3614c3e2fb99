use numeric_oracles::toy_rsa::{
    combine_results, encrypt, extended_gcd, gcd_u64, is_prime_like, mod_exp, mod_inverse,
    partial_fallback, toy_rsa_encrypt, toy_rsa_encrypt_crt,
};

/// Reference primality test by plain trial division over every candidate
/// divisor below the number.
fn reference_is_prime(n: u64) -> bool {
    if n < 2 {
        return false;
    }
    let mut d = 2u64;
    while d < n {
        if n % d == 0 {
            return false;
        }
        d += 1;
    }
    true
}

/// Reference modular exponentiation on wide intermediates.
fn reference_mod_pow(base: u64, exp: u64, modulus: u64) -> u64 {
    if modulus == 0 {
        return 0;
    }
    let m = modulus as u128;
    let mut result = 1u128;
    let mut current = (base as u128) % m;
    let mut e = exp;
    while e > 0 {
        if e & 1 == 1 {
            result = result * current % m;
        }
        current = current * current % m;
        e >>= 1;
    }
    result as u64
}

#[test]
fn test_is_prime_like_matches_sieve() {
    for n in 0..10000u64 {
        assert_eq!(is_prime_like(n), reference_is_prime(n), "mismatch at {n}");
    }
}

#[test]
fn test_is_prime_like_spot_checks() {
    assert!(!is_prime_like(0));
    assert!(!is_prime_like(1));
    assert!(is_prime_like(2));
    assert!(is_prime_like(3));
    assert!(!is_prime_like(4));
    assert!(is_prime_like(61));
    assert!(is_prime_like(53));
    assert!(!is_prime_like(61 * 53));
    assert!(is_prime_like(1_000_000_007));
}

#[test]
fn test_gcd_u64_values() {
    assert_eq!(gcd_u64(48, 18), 6);
    assert_eq!(gcd_u64(18, 48), 6);
    assert_eq!(gcd_u64(17, 3120), 1);
    assert_eq!(gcd_u64(0, 5), 5);
    assert_eq!(gcd_u64(5, 0), 5);
    assert_eq!(gcd_u64(0, 0), 0);
}

#[test]
fn test_mod_exp_zero_exponent_is_one() {
    assert_eq!(mod_exp(0, 0, 7), 1);
    assert_eq!(mod_exp(5, 0, 7), 1);
    assert_eq!(mod_exp(u64::MAX, 0, 2), 1);
    // Even a modulus of 1 yields 1 here: the loop never runs.
    assert_eq!(mod_exp(5, 0, 1), 1);
}

#[test]
fn test_mod_exp_modulus_one_is_zero() {
    assert_eq!(mod_exp(0, 1, 1), 0);
    assert_eq!(mod_exp(5, 3, 1), 0);
    assert_eq!(mod_exp(u64::MAX, 2, 1), 0);
}

#[test]
fn test_mod_exp_zero_modulus_is_zero() {
    assert_eq!(mod_exp(5, 3, 0), 0);
    assert_eq!(mod_exp(0, 0, 0), 0);
}

#[test]
fn test_mod_exp_values() {
    assert_eq!(mod_exp(65, 17, 3233), 2790);
    assert_eq!(mod_exp(4, 13, 497), 445);
    assert_eq!(mod_exp(2, 10, 1000), 24);
    for base in 0..20u64 {
        for exp in 0..10u64 {
            for m in 1..20u64 {
                assert_eq!(mod_exp(base, exp, m), reference_mod_pow(base, exp, m));
            }
        }
    }
}

#[test]
fn test_extended_gcd_base_case() {
    assert_eq!(extended_gcd(5, 0), (5, 1));
    assert_eq!(extended_gcd(0, 0), (0, 1));
    assert_eq!(extended_gcd(-7, 0), (-7, 1));
    assert_eq!(extended_gcd(i64::MIN, 0), (i64::MIN, 1));
}

#[test]
fn test_extended_gcd_bezout() {
    let cases: [(i64, i64); 6] = [(240, 46), (17, 3120), (3120, 17), (6, 9), (-240, 46), (240, -46)];
    for (a, b) in cases {
        let (g, x) = extended_gcd(a, b);
        let expected_g = gcd_u64(a.unsigned_abs(), b.unsigned_abs());
        assert_eq!(g as u64, expected_g, "gcd mismatch for ({a}, {b})");
        // Some y completes a*x + b*y == g, so b divides g - a*x.
        let rem = (g as i128 - a as i128 * x as i128) % (b as i128);
        assert_eq!(rem, 0, "no Bezout coefficient for ({a}, {b})");
        assert!((x as i128).abs() < (b as i128).abs());
    }
}

#[test]
fn test_mod_inverse_values() {
    assert_eq!(mod_inverse(3, 11), 4);
    assert_eq!(mod_inverse(2, 3), 2);
    assert_eq!(mod_inverse(17, 3120), 2753);
    assert_eq!(mod_inverse(7, 10), 3);
}

#[test]
fn test_mod_inverse_product_is_one() {
    let cases: [(u64, u64); 5] = [(3, 11), (2, 3), (17, 3120), (10, 17), (9, 16)];
    for (a, m) in cases {
        let inv = mod_inverse(a, m);
        assert!(inv < m);
        assert_eq!((a as u128 * inv as u128) % m as u128, 1, "not an inverse for ({a}, {m})");
    }
}

#[test]
fn test_mod_inverse_sentinel() {
    assert_eq!(mod_inverse(4, 8), 0);
    assert_eq!(mod_inverse(5, 5), 0);
    assert_eq!(mod_inverse(6, 9), 0);
    assert_eq!(mod_inverse(3, 0), 0);
    // With modulus 1 the canonical inverse is the residue 0, which is
    // indistinguishable from the failure sentinel.
    assert_eq!(mod_inverse(3, 1), 0);
}

#[test]
fn test_toy_rsa_encrypt_textbook_pair() {
    // p=61, q=53: n=3233, phi=3120, gcd(17, 3120)=1.
    assert_eq!(toy_rsa_encrypt(61, 53, 17, 65), 2790);
    assert_eq!(toy_rsa_encrypt(61, 53, 17, 65), reference_mod_pow(65, 17, 3233));
}

#[test]
fn test_toy_rsa_encrypt_rejects_composites() {
    assert_eq!(toy_rsa_encrypt(4, 9, 17, 65), 0);
    assert_eq!(toy_rsa_encrypt(4, 53, 17, 65), 0);
    assert_eq!(toy_rsa_encrypt(61, 9, 17, 65), 0);
}

#[test]
fn test_toy_rsa_encrypt_rejects_shared_factor_exponent() {
    // phi = 3120 is even, so an even exponent shares a factor with it.
    assert_eq!(toy_rsa_encrypt(61, 53, 2, 65), 0);
    assert_eq!(toy_rsa_encrypt(61, 53, 3120, 65), 0);
}

#[test]
fn test_partial_fallback_zero_attempts() {
    assert_eq!(partial_fallback(61, 53, 17, 65, 0), 0);
    assert_eq!(partial_fallback(0, 0, 0, 0, 0), 0);
    assert_eq!(partial_fallback(u64::MAX, u64::MAX, u64::MAX, u64::MAX, 0), 0);
}

#[test]
fn test_partial_fallback_halving_recovers() {
    // 122/2 = 61 and 106/2 = 53, so one halving reaches the textbook pair.
    assert_eq!(partial_fallback(122, 106, 17, 65, 3), 2790);
    assert_eq!(partial_fallback(122, 106, 17, 65, 1), 2790);
    // 244 and 212 need two halvings.
    assert_eq!(partial_fallback(244, 212, 17, 65, 3), 2790);
    assert_eq!(partial_fallback(244, 212, 17, 65, 1), 0);
}

#[test]
fn test_toy_rsa_encrypt_crt_value() {
    // Independent CRT computation for p=61, q=53, e=17, message=65.
    let (p, q, e, message) = (61u64, 53u64, 17u64, 65u64);
    let n = p * q;
    let p_enc = reference_mod_pow(message, e, p);
    let q_enc = reference_mod_pow(message, e, q);
    let q_inv_mod_p = mod_inverse(q, p);
    let p_inv_mod_q = mod_inverse(p, q);
    assert_ne!(q_inv_mod_p, 0);
    assert_ne!(p_inv_mod_q, 0);
    let term1 = q * q_inv_mod_p % n;
    let partial1 = term1 * p_enc % n;
    let term2 = p * p_inv_mod_q % n;
    let partial2 = term2 * q_enc % n;
    let expected = (partial1 + partial2) % n;
    assert_eq!(toy_rsa_encrypt_crt(p, q, e, message), expected);
}

#[test]
fn test_toy_rsa_encrypt_crt_equal_primes_sentinel() {
    // With p == q there is no cross inverse, so the route fails.
    assert_eq!(toy_rsa_encrypt_crt(5, 5, 3, 2), 0);
}

#[test]
fn test_encrypt_standard_route() {
    assert_eq!(encrypt(61, 53, 17, 65, 0), 2790);
}

#[test]
fn test_encrypt_fallback_route() {
    // The standard route rejects the composite 122, and the fallback halves
    // down to the textbook pair.
    assert_eq!(encrypt(122, 106, 17, 65, 0), 2790);
    // A pair no amount of halving saves is the overall failure sentinel.
    assert_eq!(encrypt(0, 0, 17, 65, 0), 0);
}

#[test]
fn test_encrypt_fallback_skips_crt() {
    // When the standard route fails and the fallback answers, the CRT flag
    // is ignored: the fallback value is returned directly. The halved pair
    // (61, 53) would give a nonzero CRT value, so a combination would show.
    assert_eq!(encrypt(122, 106, 17, 65, 1), 2790);
}

#[test]
fn test_encrypt_crt_route_combines() {
    let standard = toy_rsa_encrypt(61, 53, 17, 65);
    let crt = toy_rsa_encrypt_crt(61, 53, 17, 65);
    assert_ne!(standard, 0);
    assert_ne!(crt, 0);
    assert_eq!(encrypt(61, 53, 17, 65, 1), standard ^ crt);
    // Any flag other than 1 leaves the standard ciphertext unchanged.
    assert_eq!(encrypt(61, 53, 17, 65, 0), standard);
    assert_eq!(encrypt(61, 53, 17, 65, 2), standard);
}

#[test]
fn test_encrypt_crt_sentinel_leaves_standard_untouched() {
    // p == q passes the primality screen and the coprimality check
    // (phi = 16, gcd(3, 16) = 1), so the standard route succeeds, but the
    // CRT route finds no cross inverse and contributes only the sentinel 0.
    let standard = toy_rsa_encrypt(5, 5, 3, 2);
    assert_eq!(standard, 8);
    assert_eq!(toy_rsa_encrypt_crt(5, 5, 3, 2), 0);
    assert_eq!(encrypt(5, 5, 3, 2, 1), standard);
}

#[test]
fn test_combine_results_xor() {
    assert_eq!(combine_results(&[]), 0);
    assert_eq!(combine_results(&[7]), 7);
    assert_eq!(combine_results(&[2790, 0]), 2790);
    assert_eq!(combine_results(&[1, 2, 4, 8]), 15);
    assert_eq!(combine_results(&[0xff00, 0x00ff, 0x0f0f]), 0xff00 ^ 0x00ff ^ 0x0f0f);
}
