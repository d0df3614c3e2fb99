//! Toy RSA encryption oracle: a primality screen by trial division, Euclid's
//! gcd, square-and-multiply modular exponentiation over saturating `u64`
//! arithmetic, a modular inverse derived from the extended Euclidean
//! algorithm, an alternate encryption route through the Chinese Remainder
//! Theorem, and a bounded fallback that halves rejected key candidates.
//!
//! The single failure signal throughout is the sentinel value 0: it stands
//! for "invalid primes", "non-coprime exponent", "no modular inverse" and
//! "fallback budget exhausted" alike, and a genuine ciphertext that happens
//! to be 0 is indistinguishable from failure. The contracts below preserve
//! that ambiguity deliberately.

use vstd::arithmetic::div_mod::{
    lemma_fundamental_div_mod, lemma_mod_bound, lemma_mod_equivalence, lemma_mod_multiples_basic,
    lemma_mod_multiples_vanish, lemma_mul_mod_noop_left, lemma_mul_mod_noop_right, lemma_small_mod,
};
use vstd::arithmetic::power::{lemma_pow1, lemma_pow_mod_noop, lemma_pow_multiplies, pow};
use vstd::math::abs;
use vstd::prelude::*;

use crate::arith::{sat_add_u64, sat_mul_u64, sat_sub_u64};
use crate::arith::{safe_add_u64, safe_div_u64, safe_mul_u64, safe_sub_u64};
use crate::bits::xor_all;

verus! {

/// A number is prime when it is at least 2 and no smaller candidate of at
/// least 2 divides it.
pub open spec fn is_prime(n: nat) -> bool {
    n >= 2 && forall|d: nat| 2 <= d < n ==> #[trigger] (n % d) != 0
}

/// Any proper divisor of `n` yields one whose square does not exceed `n`:
/// the pair divisor `n / d` can be taken whenever `d` itself is too large.
proof fn lemma_composite_has_small_divisor(n: nat, d: nat)
    requires
        n >= 2,
        2 <= d < n,
        n % d == 0,
    ensures
        exists|e: nat| 2 <= e && e * e <= n && #[trigger] (n % e) == 0,
{
    let q = n / d;
    lemma_fundamental_div_mod(n as int, d as int);
    assert(n == d * q);
    assert(q >= 2) by (nonlinear_arith)
        requires
            n == d * q,
            2 <= d < n,
    ;
    assert(n % q == 0) by {
        lemma_mod_multiples_basic(d as int, q as int);
        assert(((d * q) as int) % (q as int) == 0);
    }
    if d * d <= n {
        assert(2 <= d && d * d <= n && n % d == 0);
    } else {
        assert(q * q <= n) by (nonlinear_arith)
            requires
                n == d * q,
                d * d > n,
                d >= 2,
                q >= 2,
        ;
        assert(2 <= q && q * q <= n && n % q == 0);
    }
}

/// Primality screen by trial division. The screen is exact: it returns true
/// on exactly the prime inputs, with no false positives; its only cost on a
/// huge prime is the time the division loop takes.
pub fn is_prime_like(candidate: u64) -> (r: bool)
    ensures
        r == is_prime(candidate as nat),
{
    if candidate < 2 {
        return false;
    }
    let n = candidate;
    let mut i: u64 = 2;
    while i <= n / i
        invariant
            2 <= i,
            n >= 2,
            n == candidate,
            forall|d: nat| 2 <= d < i ==> #[trigger] ((n as nat) % d) != 0,
        decreases n - i,
    {
        proof {
            lemma_fundamental_div_mod(n as int, i as int);
            assert((n / i) * i <= n);
            assert(i * i <= (n / i) * i) by (nonlinear_arith)
                requires
                    i <= n / i,
                    i >= 2,
            ;
        }
        if safe_div_u64(n, i) * i == n {
            proof {
                lemma_fundamental_div_mod(n as int, i as int);
                assert((n as nat) % (i as nat) == 0);
                assert(i < n) by (nonlinear_arith)
                    requires
                        i >= 2,
                        n >= 2,
                        (i as int) * (i as int) <= n,
                ;
                assert(!is_prime(n as nat));
            }
            return false;
        }
        proof {
            lemma_fundamental_div_mod(n as int, i as int);
            assert((n as nat) % (i as nat) != 0);
            vstd::arithmetic::div_mod::lemma_div_is_ordered_by_denominator(n as int, 2, i as int);
            assert(i < u64::MAX);
        }
        i = i + 1;
    }
    proof {
        // After the loop: i * i > n, and no divisor below i was found.
        lemma_fundamental_div_mod(n as int, i as int);
        assert(i * i > n) by (nonlinear_arith)
            requires
                i > n / i,
                i >= 2,
                n == (i as int) * ((n as int) / (i as int)) + (n as int) % (i as int),
                0 <= (n as int) % (i as int) < i,
        ;
        assert forall|d: nat| 2 <= d < n as nat implies #[trigger] ((n as nat) % d) != 0 by {
            if (n as nat) % d == 0 {
                lemma_composite_has_small_divisor(n as nat, d);
                let e = choose|e: nat| 2 <= e && e * e <= n as nat && #[trigger] ((n as nat) % e)
                    == 0;
                assert(e < i) by (nonlinear_arith)
                    requires
                        e * e <= n,
                        (i as int) * (i as int) > n,
                        e >= 2,
                        i >= 2,
                ;
                assert((n as nat) % e != 0);
            }
        }
    }
    true
}

/// Greatest common divisor by Euclid's recursion.
pub open spec fn gcd(a: nat, b: nat) -> nat
    decreases b,
{
    if b == 0 {
        a
    } else {
        gcd(b, a % b)
    }
}

/// Euclid's algorithm on `u64` values.
pub fn gcd_u64(a: u64, b: u64) -> (r: u64)
    ensures
        r == gcd(a as nat, b as nat),
{
    let mut x = a;
    let mut y = b;
    while y != 0
        invariant
            gcd(x as nat, y as nat) == gcd(a as nat, b as nat),
        decreases y,
    {
        let temp = y;
        y = x % y;
        x = temp;
    }
    x
}

/// One state of the square-and-multiply loop: `acc` is the accumulator,
/// `cur` the current power of the base, `e` the remaining exponent bits.
/// Multiplications saturate at `u64::MAX` before the reduction, exactly as
/// the executable loop's saturating arithmetic does.
pub open spec fn mod_exp_iter(acc: int, cur: int, e: nat, m: int) -> int
    decreases e,
{
    if e == 0 {
        acc
    } else {
        let acc2 = if e % 2 == 1 {
            sat_mul_u64(acc, cur) % m
        } else {
            acc
        };
        mod_exp_iter(acc2, sat_mul_u64(cur, cur) % m, e / 2, m)
    }
}

/// The value `mod_exp` computes: 0 for a zero modulus, else the loop run
/// from accumulator 1 and the reduced base.
pub open spec fn mod_exp_val(base: int, e: nat, m: int) -> int {
    if m <= 0 {
        0
    } else {
        mod_exp_iter(1, base % m, e, m)
    }
}

/// With modulus 1 every reduction yields 0, so any positive exponent drives
/// the accumulator to 0.
proof fn lemma_mod_exp_iter_mod_one(acc: int, cur: int, e: nat)
    requires
        e >= 1,
    ensures
        mod_exp_iter(acc, cur, e, 1) == 0,
    decreases e,
{
    let acc2 = if e % 2 == 1 {
        sat_mul_u64(acc, cur) % 1
    } else {
        acc
    };
    let cur2 = sat_mul_u64(cur, cur) % 1;
    assert(mod_exp_iter(acc, cur, e, 1) == mod_exp_iter(acc2, cur2, e / 2, 1));
    if e / 2 == 0 {
        assert(e == 1);
        assert(acc2 == 0);
        assert(mod_exp_iter(acc2, cur2, 0, 1) == acc2);
    } else {
        lemma_mod_exp_iter_mod_one(acc2, cur2, e / 2);
    }
}

/// Below the saturation threshold the loop computes true modular
/// exponentiation: no product of two reduced values can reach `u64::MAX`
/// when the modulus fits in 32 bits.
proof fn lemma_mod_exp_iter_exact(acc: int, cur: int, e: nat, m: int)
    requires
        2 <= m <= 0x1_0000_0000,
        0 <= acc < m,
        0 <= cur < m,
    ensures
        mod_exp_iter(acc, cur, e, m) == (acc * pow(cur, e)) % m,
    decreases e,
{
    reveal(pow);
    if e == 0 {
        assert(pow(cur, 0) == 1);
        lemma_small_mod(acc as nat, m as nat);
    } else {
        assert(acc * cur <= u64::MAX && cur * cur <= u64::MAX && 0 <= acc * cur && 0 <= cur * cur)
            by (nonlinear_arith)
            requires
                2 <= m <= 0x1_0000_0000,
                0 <= acc < m,
                0 <= cur < m,
        ;
        let acc2 = if e % 2 == 1 {
            (acc * cur) % m
        } else {
            acc
        };
        let cur2 = (cur * cur) % m;
        assert(sat_mul_u64(acc, cur) == acc * cur);
        assert(sat_mul_u64(cur, cur) == cur * cur);
        lemma_mod_bound(acc * cur, m);
        lemma_mod_bound(cur * cur, m);
        lemma_mod_exp_iter_exact(acc2, cur2, e / 2, m);
        // pow(cur2, e/2) and pow(cur * cur, e/2) agree modulo m.
        lemma_pow_mod_noop(cur * cur, e / 2, m);
        lemma_mul_mod_noop_right(acc2, pow(cur2, e / 2), m);
        lemma_mul_mod_noop_right(acc2, pow(cur * cur, e / 2), m);
        assert((acc2 * pow(cur2, e / 2)) % m == (acc2 * pow(cur * cur, e / 2)) % m);
        // pow(cur * cur, e/2) == pow(cur, 2 * (e/2)).
        lemma_pow1(cur);
        assert(pow(cur, 2) == cur * pow(cur, 1));
        lemma_pow_multiplies(cur, 2, e / 2);
        assert(pow(cur * cur, e / 2) == pow(cur, 2 * (e / 2)));
        if e % 2 == 1 {
            assert(e == 2 * (e / 2) + 1);
            lemma_mul_mod_noop_left(acc * cur, pow(cur, 2 * (e / 2)), m);
            assert(((acc * cur) % m * pow(cur, 2 * (e / 2))) % m == ((acc * cur) * pow(
                cur,
                2 * (e / 2),
            )) % m);
            assert(pow(cur, e) == cur * pow(cur, (e - 1) as nat));
            assert((acc * cur) * pow(cur, (e - 1) as nat) == acc * (cur * pow(cur, (e - 1) as nat)))
                by (nonlinear_arith);
            assert(mod_exp_iter(acc, cur, e, m) == (acc * pow(cur, e)) % m);
        } else {
            assert(e == 2 * (e / 2));
            assert(mod_exp_iter(acc, cur, e, m) == (acc * pow(cur, e)) % m);
        }
    }
}

/// If both `x` and `y` are multiples of `m`, so is `x - q * y`.
proof fn lemma_mod_linear_combo(x: int, y: int, q: int, m: int)
    requires
        m >= 1,
        x % m == 0,
        y % m == 0,
    ensures
        (x - q * y) % m == 0,
{
    lemma_fundamental_div_mod(x, m);
    lemma_fundamental_div_mod(y, m);
    assert(x - q * y == m * (x / m - q * (y / m))) by (nonlinear_arith)
        requires
            x == m * (x / m),
            y == m * (y / m),
    ;
    lemma_mod_multiples_basic(x / m - q * (y / m), m);
    assert((x / m - q * (y / m)) * m == m * (x / m - q * (y / m))) by (nonlinear_arith);
}

/// The gcd of `a` with a positive `b` never exceeds `b`.
proof fn lemma_gcd_le(a: nat, b: nat)
    requires
        b >= 1,
    ensures
        gcd(a, b) <= b,
    decreases b,
{
    if a % b == 0 {
        assert(gcd(b, 0) == b);
    } else {
        lemma_gcd_le(b, a % b);
    }
}

/// Extended Euclidean core on magnitudes: besides the gcd it returns a
/// coefficient `x` in `[0, b)` with `a * x` congruent to the gcd modulo `b`.
/// The loop keeps the classical alternating-sign coefficients, whose
/// magnitudes the invariant `s2 * r1 - s1 * r2 == b` keeps below `b`.
fn egcd_u64(a: u64, b: u64) -> (res: (u64, u64))
    requires
        b >= 1,
    ensures
        res.0 == gcd(a as nat, b as nat),
        res.1 < b,
        ((res.0 as int) - (a as int) * (res.1 as int)) % (b as int) == 0,
{
    let mut r0: u64 = a;
    let mut r1: u64 = b;
    let mut s0: i128 = 1;
    let mut s1: i128 = 0;
    let ghost mut sign: bool = true;
    proof {
        vstd::arithmetic::div_mod::lemma_mod_self_0(b as int);
        lemma_small_mod(0nat, b as nat);
    }
    while r1 != 0
        invariant
            b >= 1,
            gcd(r0 as nat, r1 as nat) == gcd(a as nat, b as nat),
            -(b as int) <= s0 as int <= b as int,
            -(b as int) <= s1 as int <= b as int,
            sign ==> s0 >= 0 && s1 <= 0 && (s0 as int) * (r1 as int) - (s1 as int) * (r0 as int)
                == b as int,
            !sign ==> s0 <= 0 && s1 >= 0 && (s1 as int) * (r0 as int) - (s0 as int) * (r1 as int)
                == b as int,
            ((r0 as int) - (a as int) * (s0 as int)) % (b as int) == 0,
            ((r1 as int) - (a as int) * (s1 as int)) % (b as int) == 0,
        decreases r1,
    {
        let q = r0 / r1;
        let r2 = r0 % r1;
        proof {
            lemma_fundamental_div_mod(r0 as int, r1 as int);
            vstd::arithmetic::div_mod::lemma_div_pos_is_pos(r0 as int, r1 as int);
            vstd::arithmetic::div_mod::lemma_div_nonincreasing(r0 as int, r1 as int);
            if sign {
                assert(-(b as int) <= (q as int) * (s1 as int) <= 0) by (nonlinear_arith)
                    requires
                        0 <= q as int <= r0 as int,
                        s1 as int <= 0,
                        s0 as int >= 0,
                        r1 as int >= 1,
                        (s0 as int) * (r1 as int) - (s1 as int) * (r0 as int) == b as int,
                ;
            } else {
                assert(0 <= (q as int) * (s1 as int) <= b as int) by (nonlinear_arith)
                    requires
                        0 <= q as int <= r0 as int,
                        s1 as int >= 0,
                        s0 as int <= 0,
                        r1 as int >= 1,
                        (s1 as int) * (r0 as int) - (s0 as int) * (r1 as int) == b as int,
                ;
            }
        }
        let s2 = s0 - (q as i128) * s1;
        proof {
            let bi = b as int;
            let ai = a as int;
            let qi = q as int;
            if sign {
                assert((s2 as int) * (r1 as int) - (s1 as int) * (r2 as int) == bi && s2 >= 0)
                    by (nonlinear_arith)
                    requires
                        s2 as int == s0 as int - qi * (s1 as int),
                        r2 as int == r0 as int - qi * (r1 as int),
                        (s0 as int) * (r1 as int) - (s1 as int) * (r0 as int) == bi,
                        s0 as int >= 0,
                        s1 as int <= 0,
                        qi >= 0,
                ;
                assert(s2 as int <= bi) by (nonlinear_arith)
                    requires
                        (s2 as int) * (r1 as int) - (s1 as int) * (r2 as int) == bi,
                        r1 as int >= 1,
                        r2 as int >= 0,
                        s1 as int <= 0,
                        s2 as int >= 0,
                ;
            } else {
                assert((s2 as int) * (r1 as int) - (s1 as int) * (r2 as int) == 0 - bi && s2 <= 0)
                    by (nonlinear_arith)
                    requires
                        s2 as int == s0 as int - qi * (s1 as int),
                        r2 as int == r0 as int - qi * (r1 as int),
                        (s1 as int) * (r0 as int) - (s0 as int) * (r1 as int) == bi,
                        s0 as int <= 0,
                        s1 as int >= 0,
                        qi >= 0,
                ;
                assert(0 - (s2 as int) <= bi) by (nonlinear_arith)
                    requires
                        (s1 as int) * (r2 as int) - (s2 as int) * (r1 as int) == bi,
                        r1 as int >= 1,
                        r2 as int >= 0,
                        s1 as int >= 0,
                        s2 as int <= 0,
                ;
            }
            // The new remainder and coefficient stay linear combinations.
            lemma_mod_linear_combo(
                (r0 as int) - ai * (s0 as int),
                (r1 as int) - ai * (s1 as int),
                qi,
                bi,
            );
            assert((r2 as int) - ai * (s2 as int) == ((r0 as int) - ai * (s0 as int)) - qi * ((
            r1 as int) - ai * (s1 as int))) by (nonlinear_arith)
                requires
                    s2 as int == s0 as int - qi * (s1 as int),
                    r2 as int == r0 as int - qi * (r1 as int),
            ;
        }
        r0 = r1;
        r1 = r2;
        s0 = s1;
        s1 = s2;
        proof {
            sign = !sign;
        }
    }
    let bi = b as i128;
    let ghost s_orig = s0 as int;
    let mut x = s0;
    if x < 0 {
        x = x + bi;
    }
    if x >= bi {
        x = x - bi;
    }
    proof {
        let ai = a as int;
        let bint = b as int;
        vstd::arithmetic::div_mod::lemma_mod_self_0(bint);
        if s_orig < 0 {
            lemma_mod_linear_combo((r0 as int) - ai * s_orig, bint, ai, bint);
            assert((r0 as int) - ai * (x as int) == ((r0 as int) - ai * s_orig) - ai * bint)
                by (nonlinear_arith)
                requires
                    x as int == s_orig + bint,
            ;
        } else if s_orig >= bint {
            lemma_mod_linear_combo((r0 as int) - ai * s_orig, bint, -ai, bint);
            assert((r0 as int) - ai * (x as int) == ((r0 as int) - ai * s_orig) - (-ai) * bint)
                by (nonlinear_arith)
                requires
                    x as int == s_orig - bint,
            ;
        }
    }
    (r0, x as u64)
}

/// Whether `x` is the canonical modular inverse of `a` modulo `m`: the
/// residue in `[0, m)` whose product with `a` is congruent to 1. (With
/// `m == 1` that congruence reads `(a * x) % 1 == 0`, so 0 qualifies.)
pub open spec fn is_mod_inverse(a: nat, m: nat, x: nat) -> bool {
    x < m && (a * x) % m == 1nat % m
}

/// The value `mod_inverse` returns: the sentinel 0 when `m` is 0 or `a` and
/// `m` share a factor, else the canonical inverse.
pub open spec fn mod_inverse_val(a: nat, m: nat) -> nat {
    if m == 0 {
        0
    } else if gcd(a, m) != 1 {
        0
    } else {
        choose|x: nat| is_mod_inverse(a, m, x)
    }
}

/// A modulus admits at most one canonical inverse for `a`.
proof fn lemma_inverse_unique(a: nat, m: nat, x1: nat, x2: nat)
    requires
        m >= 1,
        is_mod_inverse(a, m, x1),
        is_mod_inverse(a, m, x2),
    ensures
        x1 == x2,
{
    let ai = a as int;
    let mi = m as int;
    let x1i = x1 as int;
    let x2i = x2 as int;
    lemma_small_mod(x1, m);
    lemma_small_mod(x2, m);
    lemma_mul_mod_noop_right(x1i, ai * x2i, mi);
    lemma_mul_mod_noop_right(x1i, 1, mi);
    assert((x1i * ((ai * x2i) % mi)) % mi == (x1i * (1int % mi)) % mi);
    assert((x1i * (ai * x2i)) % mi == (x1i * 1) % mi);
    assert(x1i * (ai * x2i) == (ai * x1i) * x2i) by (nonlinear_arith);
    lemma_mul_mod_noop_left(ai * x1i, x2i, mi);
    lemma_mul_mod_noop_left(1, x2i, mi);
    assert(((ai * x1i) * x2i) % mi == ((1int % mi) * x2i) % mi);
    assert((x1i * 1) % mi == (1int * x2i) % mi);
    assert(x1i % mi == x2i % mi);
}

/// Bezout witnesses for Euclid's gcd: coefficients `r.0`, `r.1` with
/// `a * r.0 + b * r.1 == gcd(a, b)`.
proof fn lemma_bezout(a: nat, b: nat) -> (r: (int, int))
    ensures
        (a as int) * r.0 + (b as int) * r.1 == gcd(a, b),
    decreases b,
{
    if b == 0 {
        (1, 0)
    } else {
        let (x1, y1) = lemma_bezout(b, a % b);
        lemma_fundamental_div_mod(a as int, b as int);
        let q = (a as int) / (b as int);
        let x = y1;
        let y = x1 - q * y1;
        assert((a as int) * x + (b as int) * y == gcd(a, b)) by (nonlinear_arith)
            requires
                (b as int) * x1 + ((a % b) as int) * y1 == gcd(a, b),
                a as int == (b as int) * q + ((a % b) as int),
                x == y1,
                y == x1 - q * y1,
        ;
        (x, y)
    }
}

/// How the sentinel convention of `mod_inverse` behaves: it returns 0
/// exactly on the inputs without a usable inverse (a zero modulus, or a
/// shared factor), and otherwise its result multiplied by `a` is congruent
/// to 1 modulo `m`.
pub proof fn lemma_mod_inverse_spec(a: nat, m: nat)
    ensures
        m == 0 ==> mod_inverse_val(a, m) == 0,
        gcd(a, m) != 1 ==> mod_inverse_val(a, m) == 0,
        m >= 1 && gcd(a, m) == 1 ==> is_mod_inverse(a, m, mod_inverse_val(a, m)),
{
    if m >= 1 && gcd(a, m) == 1 {
        let (x, y) = lemma_bezout(a, m);
        let ai = a as int;
        let mi = m as int;
        let x0 = x % mi;
        lemma_mod_bound(x, mi);
        lemma_mul_mod_noop_right(ai, x, mi);
        lemma_mod_multiples_vanish(-y, 1, mi);
        assert(ai * x == mi * (-y) + 1) by (nonlinear_arith)
            requires
                ai * x + mi * y == 1,
        ;
        assert((ai * x0) % mi == 1int % mi);
        let xn = x0 as nat;
        assert((a * xn) as int == ai * x0);
        assert(is_mod_inverse(a, m, xn));
        assert(exists|w: nat| is_mod_inverse(a, m, w));
        let c = choose|w: nat| is_mod_inverse(a, m, w);
        assert(is_mod_inverse(a, m, c));
    }
}

/// Modular inverse through the extended Euclidean algorithm. The sentinel 0
/// answers both "no inverse exists" and the modulus-1 case whose canonical
/// inverse happens to be the residue 0; callers cannot tell the two apart.
pub fn mod_inverse(a: u64, m: u64) -> (r: u64)
    ensures
        r == mod_inverse_val(a as nat, m as nat),
        m == 0 ==> r == 0,
        gcd(a as nat, m as nat) != 1 ==> r == 0,
        m >= 1 && gcd(a as nat, m as nat) == 1 ==> is_mod_inverse(a as nat, m as nat, r as nat),
{
    if m == 0 {
        return 0;
    }
    let (g, x) = egcd_u64(a, m);
    if g != 1 {
        0
    } else {
        proof {
            lemma_mod_equivalence(1, (a as int) * (x as int), m as int);
            assert(((a as nat) * (x as nat)) as int == (a as int) * (x as int));
            assert(is_mod_inverse(a as nat, m as nat, x as nat));
            lemma_mod_inverse_spec(a as nat, m as nat);
            lemma_inverse_unique(
                a as nat,
                m as nat,
                x as nat,
                mod_inverse_val(a as nat, m as nat),
            );
        }
        x
    }
}

/// Extended Euclidean algorithm on signed inputs. For `b == 0` it answers
/// `(a, 1)`; otherwise it returns the (nonnegative) gcd of the magnitudes
/// together with a Bezout coefficient for `a`: some `y` completes
/// `a * x + b * y == gcd`, which the congruence clause below expresses
/// without naming `y`. The one unrepresentable gcd, 2^63, comes back as
/// `i64::MIN`.
pub fn extended_gcd(a: i64, b: i64) -> (res: (i64, i64))
    ensures
        b == 0 ==> res.0 == a && res.1 == 1,
        b != 0 ==> res.0 as int == ({
            let g = gcd(abs(a as int), abs(b as int));
            if g <= i64::MAX {
                g as int
            } else {
                i64::MIN as int
            }
        }),
        b != 0 ==> ((gcd(abs(a as int), abs(b as int)) as int) - (a as int) * (res.1 as int)) % (
        abs(b as int) as int) == 0,
        b != 0 ==> -(abs(b as int) as int) < res.1 as int && (res.1 as int) < abs(b as int) as int,
        b != 0 && a >= 0 ==> res.1 >= 0,
        b != 0 && a < 0 ==> res.1 <= 0,
{
    if b == 0 {
        return (a, 1);
    }
    let aa = i64_abs_u64(a);
    let bb = i64_abs_u64(b);
    let (g, x) = egcd_u64(aa, bb);
    proof {
        lemma_gcd_le(aa as nat, bb as nat);
    }
    let g64: i64 = if g <= 0x7fff_ffff_ffff_ffffu64 {
        g as i64
    } else {
        i64::MIN
    };
    let xi: i64 = x as i64;
    if a >= 0 {
        (g64, xi)
    } else {
        proof {
            assert((a as int) * (0 - (x as int)) == (aa as int) * (x as int)) by (nonlinear_arith)
                requires
                    a as int == 0 - (aa as int),
            ;
        }
        (g64, -xi)
    }
}

/// Magnitude of an `i64`, as a `u64` so that the minimum value needs no
/// special case.
fn i64_abs_u64(v: i64) -> (r: u64)
    ensures
        r == abs(v as int),
{
    if v >= 0 {
        v as u64
    } else if v == i64::MIN {
        9223372036854775808u64
    } else {
        (-v) as u64
    }
}

/// Square-and-multiply exponentiation modulo `modulus`, reducing after every
/// multiplication; the multiplications saturate, so for a modulus above
/// 32 bits the result is the saturating loop's value rather than the exact
/// power. A zero modulus yields 0, a zero exponent yields 1.
pub fn mod_exp(base: u64, exp: u64, modulus: u64) -> (r: u64)
    ensures
        r == mod_exp_val(base as int, exp as nat, modulus as int),
        modulus == 0 ==> r == 0,
        modulus >= 1 && exp == 0 ==> r == 1,
        modulus == 1 && exp >= 1 ==> r == 0,
        2 <= modulus <= 0x1_0000_0000 ==> r == pow(base as int, exp as nat) % (modulus as int),
{
    if modulus == 0 {
        return 0;
    }
    let mut result: u64 = 1;
    let mut current: u64 = base % modulus;
    let mut e: u64 = exp;
    while e > 0
        invariant
            modulus >= 1,
            current < modulus,
            mod_exp_iter(result as int, current as int, e as nat, modulus as int) == mod_exp_val(
                base as int,
                exp as nat,
                modulus as int,
            ),
        decreases e,
    {
        let ghost result0 = result as int;
        let ghost e0 = e as nat;
        proof {
            assert((e & 1 == 1) == ((e as nat) % 2 == 1)) by (bit_vector);
            assert(e >> 1 == e / 2) by (bit_vector);
        }
        if e & 1 == 1 {
            let tmp = safe_mul_u64(result, current);
            result = tmp % modulus;
        }
        let sq = safe_mul_u64(current, current);
        current = sq % modulus;
        e = e >> 1;
    }
    proof {
        if modulus >= 2 && modulus <= 0x1_0000_0000 {
            lemma_mod_bound(base as int, modulus as int);
            lemma_mod_exp_iter_exact(
                1,
                (base as int) % (modulus as int),
                exp as nat,
                modulus as int,
            );
            lemma_pow_mod_noop(base as int, exp as nat, modulus as int);
            lemma_mul_mod_noop_left(1, pow((base as int) % (modulus as int), exp as nat), modulus as int);
            lemma_small_mod(1nat, modulus as nat);
            assert(1 * pow((base as int) % (modulus as int), exp as nat) == pow(
                (base as int) % (modulus as int),
                exp as nat,
            ));
            assert(mod_exp_val(base as int, exp as nat, modulus as int) == pow(
                base as int,
                exp as nat,
            ) % (modulus as int)) by {
                assert((1 * pow((base as int) % (modulus as int), exp as nat)) % (modulus as int)
                    == pow((base as int) % (modulus as int), exp as nat) % (modulus as int));
            }
        }
        if modulus == 1 && exp >= 1 {
            lemma_mod_exp_iter_mod_one(1, (base as int) % 1, exp as nat);
        }
    }
    result
}

/// Saturating totient candidate `(p - 1) * (q - 1)`.
pub open spec fn totient_candidate(p: int, q: int) -> int {
    sat_mul_u64(sat_sub_u64(p, 1), sat_sub_u64(q, 1))
}

/// Saturating modulus `p * q`.
pub open spec fn rsa_modulus(p: int, q: int) -> int {
    sat_mul_u64(p, q)
}

/// The value `toy_rsa_encrypt` returns: the sentinel 0 when either
/// candidate fails the primality screen or the exponent shares a factor
/// with the totient candidate, else the modular power of the message.
pub open spec fn toy_rsa_encrypt_val(p: u64, q: u64, e: u64, message: u64) -> int {
    if !is_prime(p as nat) || !is_prime(q as nat) {
        0
    } else if gcd(e as nat, totient_candidate(p as int, q as int) as nat) != 1 {
        0
    } else {
        mod_exp_val(message as int, e as nat, rsa_modulus(p as int, q as int))
    }
}

/// Validates a candidate key pair and encrypts: both candidates must pass
/// the primality screen and the exponent must be coprime to the totient
/// candidate, else the sentinel 0 comes back. The message is not reduced or
/// range-checked first, and no bound is placed on the exponent: degenerate
/// exponents get whatever the exponentiation loop produces.
pub fn toy_rsa_encrypt(p: u64, q: u64, e: u64, message: u64) -> (r: u64)
    ensures
        r == toy_rsa_encrypt_val(p, q, e, message),
{
    if !is_prime_like(p) || !is_prime_like(q) {
        return 0;
    }
    let n = safe_mul_u64(p, q);
    let phi_p = safe_sub_u64(p, 1);
    let phi_q = safe_sub_u64(q, 1);
    let phi = safe_mul_u64(phi_p, phi_q);
    if gcd_u64(e, phi) != 1 {
        return 0;
    }
    mod_exp(message, e, n)
}

/// The value `partial_fallback` returns: the first nonzero encryption among
/// the successively halved candidate pairs, or 0 once the attempt budget
/// runs out.
pub open spec fn partial_fallback_val(p: u64, q: u64, e: u64, message: u64, attempts: u64) -> int
    decreases attempts,
{
    if attempts == 0 {
        0
    } else {
        let p_half = p / 2;
        let q_half = q / 2;
        let enc = toy_rsa_encrypt_val(p_half, q_half, e, message);
        if enc != 0 {
            enc
        } else {
            partial_fallback_val(p_half, q_half, e, message, (attempts - 1) as u64)
        }
    }
}

/// Fallback when a candidate pair is rejected: halve both candidates and
/// retry, at most `attempts` times. Each retry shrinks the inputs, and an
/// exhausted budget is the terminal failure, reported as the sentinel 0.
pub fn partial_fallback(
    p_candidate: u64,
    q_candidate: u64,
    e: u64,
    message: u64,
    attempts: u64,
) -> (r: u64)
    ensures
        r == partial_fallback_val(p_candidate, q_candidate, e, message, attempts),
        attempts == 0 ==> r == 0,
    decreases attempts,
{
    if attempts == 0 {
        return 0;
    }
    let p_half = safe_div_u64(p_candidate, 2);
    let q_half = safe_div_u64(q_candidate, 2);
    let encrypted_half = toy_rsa_encrypt(p_half, q_half, e, message);
    if encrypted_half != 0 {
        encrypted_half
    } else {
        partial_fallback(p_half, q_half, e, message, attempts - 1)
    }
}

/// The value `toy_rsa_encrypt_crt` returns. The route is deliberately its
/// own oracle: it is never checked against the standard route, and the two
/// need not agree numerically.
pub open spec fn toy_rsa_encrypt_crt_val(p: u64, q: u64, e: u64, message: u64) -> int {
    if !is_prime(p as nat) || !is_prime(q as nat) {
        0
    } else {
        let n = rsa_modulus(p as int, q as int);
        let p_enc = mod_exp_val(message as int, e as nat, p as int);
        let q_enc = mod_exp_val(message as int, e as nat, q as int);
        let q_inv_mod_p = mod_inverse_val(q as nat, p as nat) as int;
        let p_inv_mod_q = mod_inverse_val(p as nat, q as nat) as int;
        if q_inv_mod_p == 0 || p_inv_mod_q == 0 {
            0
        } else {
            let term1 = sat_mul_u64(q as int, q_inv_mod_p) % n;
            let partial1 = sat_mul_u64(term1, p_enc) % n;
            let term2 = sat_mul_u64(p as int, p_inv_mod_q) % n;
            let partial2 = sat_mul_u64(term2, q_enc) % n;
            sat_add_u64(partial1, partial2) % n
        }
    }
}

/// Alternate encryption route through the Chinese Remainder Theorem:
/// exponentiate modulo each candidate separately and recombine through the
/// cross inverses, reducing every intermediate product modulo `n`. A failed
/// primality screen or a missing cross inverse yields the sentinel 0.
pub fn toy_rsa_encrypt_crt(p: u64, q: u64, e: u64, message: u64) -> (r: u64)
    ensures
        r == toy_rsa_encrypt_crt_val(p, q, e, message),
{
    if !is_prime_like(p) || !is_prime_like(q) {
        return 0;
    }
    let n = safe_mul_u64(p, q);
    proof {
        assert((p as int) * (q as int) >= 4) by (nonlinear_arith)
            requires
                p >= 2,
                q >= 2,
        ;
    }
    let p_enc = mod_exp(message, e, p);
    let q_enc = mod_exp(message, e, q);
    let q_inv_mod_p = mod_inverse(q, p);
    let p_inv_mod_q = mod_inverse(p, q);
    if q_inv_mod_p == 0 || p_inv_mod_q == 0 {
        return 0;
    }
    let term1 = safe_mul_u64(q, q_inv_mod_p) % n;
    let partial1 = safe_mul_u64(term1, p_enc) % n;
    let term2 = safe_mul_u64(p, p_inv_mod_q) % n;
    let partial2 = safe_mul_u64(term2, q_enc) % n;
    safe_add_u64(partial1, partial2) % n
}

/// Folds a batch of partial results into one word by exclusive-or.
pub fn combine_results(results: &[u64]) -> (r: u64)
    ensures
        r == xor_all(results@),
{
    crate::bits::xor_fold_u64(results)
}

/// Entry point of the oracle. The standard route is attempted first; the
/// sentinel 0 from it triggers the fallback with a budget of 3, whose value
/// (possibly the sentinel itself) is then the answer. A nonzero standard
/// ciphertext is combined by exclusive-or with the CRT route's value when
/// `use_crt` is 1, and returned unchanged otherwise.
pub fn encrypt(p_candidate: u64, q_candidate: u64, e: u64, message: u64, use_crt: u64) -> (r: u64)
    ensures
        ({
            let enc = toy_rsa_encrypt_val(p_candidate, q_candidate, e, message);
            let crt = toy_rsa_encrypt_crt_val(p_candidate, q_candidate, e, message);
            &&& enc == 0 ==> r == partial_fallback_val(p_candidate, q_candidate, e, message, 3)
            &&& enc != 0 && use_crt == 1 ==> r == (enc as u64) ^ (crt as u64)
            &&& enc != 0 && use_crt != 1 ==> r == enc
        }),
{
    let encrypted = toy_rsa_encrypt(p_candidate, q_candidate, e, message);
    if encrypted == 0 {
        let fallback_encrypted = partial_fallback(p_candidate, q_candidate, e, message, 3);
        if fallback_encrypted == 0 {
            return 0;
        }
        return fallback_encrypted;
    }
    let crt_encrypted = if use_crt == 1 {
        toy_rsa_encrypt_crt(p_candidate, q_candidate, e, message)
    } else {
        0
    };
    let parts: [u64; 2] = [encrypted, crt_encrypted];
    let r = combine_results(vstd::array::array_as_slice(&parts));
    proof {
        let s = parts@;
        assert(s.len() == 2);
        assert(s.drop_last() =~= s.take(1));
        assert(s.take(1).drop_last() =~= s.take(0));
        assert(xor_all(s.take(0)) == 0u64);
        assert(s.take(1).last() == encrypted);
        assert(s.last() == crt_encrypted);
        assert(0u64 ^ encrypted == encrypted) by (bit_vector);
        assert(xor_all(s.take(1)) == 0u64 ^ encrypted);
        assert(xor_all(s) == xor_all(s.take(1)) ^ crt_encrypted);
        assert(xor_all(s) == encrypted ^ crt_encrypted);
        if use_crt != 1 {
            assert(encrypted ^ 0u64 == encrypted) by (bit_vector);
        }
    }
    r
}

/// The standard route is a pure function of its four inputs: any two
/// results obtained for the same inputs (each pinned by the contract of
/// `toy_rsa_encrypt` to the one specified value) are equal, so encryption
/// is deterministic and reproducible.
pub proof fn lemma_toy_rsa_encrypt_deterministic(
    p: u64,
    q: u64,
    e: u64,
    message: u64,
    r1: u64,
    r2: u64,
)
    requires
        r1 == toy_rsa_encrypt_val(p, q, e, message),
        r2 == toy_rsa_encrypt_val(p, q, e, message),
    ensures
        r1 == r2,
{
}

} // verus!
