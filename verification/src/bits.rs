//! Bit-level helpers shared by the oracles: population count and word
//! rotations, defined against arithmetic specifications.

use vstd::prelude::*;

verus! {

/// Number of set bits: the low bit plus the count of the rest.
pub open spec fn popcount(n: nat) -> nat
    decreases n,
{
    if n == 0 {
        0
    } else {
        n % 2 + popcount(n / 2)
    }
}

/// The set-bit count never exceeds the number itself.
pub(crate) proof fn lemma_popcount_le(n: nat)
    ensures
        popcount(n) <= n,
    decreases n,
{
    if n > 0 {
        lemma_popcount_le(n / 2);
    }
}

/// A 32-bit rotation left by `k` (any amount; only `k % 32` matters).
pub open spec fn rotl32_val(x: u32, k: u32) -> u32 {
    let s = k % 32;
    if s == 0 {
        x
    } else {
        (x << s) | (x >> (32 - s))
    }
}

/// A 64-bit rotation left by `k` (any amount; only `k % 64` matters).
pub open spec fn rotl64_val(x: u64, k: u32) -> u64 {
    let s = k % 64;
    if s == 0 {
        x
    } else {
        (x << s) | (x >> (64 - s))
    }
}

/// A 64-bit rotation right by `k` (any amount; only `k % 64` matters).
pub open spec fn rotr64_val(x: u64, k: u32) -> u64 {
    let s = k % 64;
    if s == 0 {
        x
    } else {
        (x >> s) | (x << (64 - s))
    }
}

/// Exclusive-or of all entries of a 64-bit batch, oldest first.
pub open spec fn xor_all(s: Seq<u64>) -> u64
    decreases s.len(),
{
    if s.len() == 0 {
        0u64
    } else {
        xor_all(s.drop_last()) ^ s.last()
    }
}

/// Exclusive-or of all entries of a 32-bit batch, oldest first.
pub open spec fn xor_all_u32(s: Seq<u32>) -> u32
    decreases s.len(),
{
    if s.len() == 0 {
        0u32
    } else {
        xor_all_u32(s.drop_last()) ^ s.last()
    }
}

/// Folds a slice of 64-bit words into one by exclusive-or.
pub(crate) fn xor_fold_u64(results: &[u64]) -> (r: u64)
    ensures
        r == xor_all(results@),
{
    let mut out: u64 = 0;
    let mut idx: usize = 0;
    while idx < results.len()
        invariant
            idx <= results@.len(),
            out == xor_all(results@.take(idx as int)),
        decreases results@.len() - idx,
    {
        proof {
            assert(results@.take(idx + 1).drop_last() =~= results@.take(idx as int));
            assert(results@.take(idx + 1).last() == results@[idx as int]);
        }
        out = out ^ results[idx];
        idx = idx + 1;
    }
    proof {
        assert(results@.take(results@.len() as int) =~= results@);
    }
    out
}

/// Folds a slice of 32-bit words into one by exclusive-or.
pub(crate) fn xor_fold_u32(results: &[u32]) -> (r: u32)
    ensures
        r == xor_all_u32(results@),
{
    let mut out: u32 = 0;
    let mut idx: usize = 0;
    while idx < results.len()
        invariant
            idx <= results@.len(),
            out == xor_all_u32(results@.take(idx as int)),
        decreases results@.len() - idx,
    {
        proof {
            assert(results@.take(idx + 1).drop_last() =~= results@.take(idx as int));
            assert(results@.take(idx + 1).last() == results@[idx as int]);
        }
        out = out ^ results[idx];
        idx = idx + 1;
    }
    proof {
        assert(results@.take(results@.len() as int) =~= results@);
    }
    out
}

/// Population count of a 32-bit word by shifting the word down bit by bit.
pub(crate) fn count_ones_u32(x: u32) -> (r: u32)
    ensures
        r == popcount(x as nat),
{
    let mut v = x;
    let mut c: u32 = 0;
    proof {
        lemma_popcount_le(x as nat);
    }
    while v != 0
        invariant
            c + popcount(v as nat) == popcount(x as nat),
            popcount(x as nat) <= u32::MAX,
        decreases v,
    {
        proof {
            assert((v & 1) == v % 2) by (bit_vector);
            assert(v >> 1 == v / 2) by (bit_vector);
        }
        if v & 1 == 1 {
            c = c + 1;
        }
        v = v >> 1;
    }
    c
}

/// 32-bit rotation left, written with two shifts.
pub(crate) fn rotl_u32(x: u32, k: u32) -> (r: u32)
    ensures
        r == rotl32_val(x, k),
{
    let s = k % 32;
    if s == 0 {
        x
    } else {
        (x << s) | (x >> (32 - s))
    }
}

/// 64-bit rotation left, written with two shifts.
pub(crate) fn rotl_u64(x: u64, k: u32) -> (r: u64)
    ensures
        r == rotl64_val(x, k),
{
    let s = k % 64;
    if s == 0 {
        x
    } else {
        (x << s) | (x >> (64 - s))
    }
}

/// 64-bit rotation right, written with two shifts.
pub(crate) fn rotr_u64(x: u64, k: u32) -> (r: u64)
    ensures
        r == rotr64_val(x, k),
{
    let s = k % 64;
    if s == 0 {
        x
    } else {
        (x >> s) | (x << (64 - s))
    }
}

} // verus!
