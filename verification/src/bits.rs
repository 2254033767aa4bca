//! Powers of two and base-2 logarithms on machine words.

use vstd::prelude::*;
use vstd::arithmetic::power2::{pow2, lemma_pow2_unfold, lemma_pow2_pos, lemma_pow2_strictly_increases};
use vstd::bits::{lemma_usize_shl_is_mul, lemma_usize_pow2_no_overflow};

verus! {

/// `k` is the base-2 logarithm of `x`, rounded down.
pub open spec fn is_floor_log2(k: nat, x: nat) -> bool {
    pow2(k) <= x < pow2(k + 1)
}

/// The base-2 logarithm of `x`, rounded down (0 for `x <= 1`).
pub open spec fn floor_log2(x: nat) -> nat
    decreases x,
{
    if x <= 1 {
        0
    } else {
        1 + floor_log2(x / 2)
    }
}

/// `floor_log2` meets its defining inequalities on every positive number.
pub proof fn lemma_floor_log2(x: nat)
    requires
        x > 0,
    ensures
        is_floor_log2(floor_log2(x), x),
    decreases x,
{
    if x <= 1 {
        lemma_pow2_unfold(1);
        assert(pow2(0) == 1) by {
            vstd::arithmetic::power2::lemma2_to64();
        }
    } else {
        lemma_floor_log2(x / 2);
        let k = floor_log2(x / 2);
        lemma_pow2_unfold(k + 1);
        lemma_pow2_unfold(k + 2);
    }
}

/// The rounded-down logarithm is the only number meeting the inequalities.
pub proof fn lemma_floor_log2_unique(k: nat, x: nat)
    requires
        is_floor_log2(k, x),
    ensures
        k == floor_log2(x),
{
    lemma_pow2_pos(k);
    lemma_floor_log2(x);
    let f = floor_log2(x);
    if k < f {
        lemma_pow2_strictly_increases(k, f);
        if k + 1 < f {
            lemma_pow2_strictly_increases(k + 1, f);
        }
    } else if f < k {
        lemma_pow2_strictly_increases(f, k);
        if f + 1 < k {
            lemma_pow2_strictly_increases(f + 1, k);
        }
    }
}

/// Base-2 logarithm of a positive word, rounded down.
pub fn ilog2(x: usize) -> (k: u32)
    requires
        x > 0,
    ensures
        k == floor_log2(x as nat),
        k < usize::BITS,
        is_floor_log2(k as nat, x as nat),
        pow2(k as nat) <= x < pow2(k as nat + 1),
{
    let mut v: usize = x;
    let mut k: u32 = 0;
    proof {
        vstd::arithmetic::power2::lemma2_to64();
    }
    while v > 1
        invariant
            v >= 1,
            k < usize::BITS,
            floor_log2(x as nat) == k + floor_log2(v as nat),
            v as nat * pow2(k as nat) <= x,
            pow2(k as nat) <= x,
        decreases v,
    {
        proof {
            lemma_pow2_unfold(k as nat + 1);
            assert((v / 2) as nat * pow2(k as nat + 1) <= x) by (nonlinear_arith)
                requires
                    v as nat * pow2(k as nat) <= x,
                    pow2(k as nat + 1) == 2 * pow2(k as nat),
            ;
            assert(pow2(k as nat + 1) <= x) by (nonlinear_arith)
                requires
                    v >= 2,
                    v as nat * pow2(k as nat) <= x,
                    pow2(k as nat + 1) == 2 * pow2(k as nat),
            ;
            if k + 1 >= usize::BITS {
                vstd::arithmetic::power2::lemma2_to64();
                vstd::arithmetic::power2::lemma2_to64_rest();
                if k + 1 > usize::BITS {
                    lemma_pow2_strictly_increases(usize::BITS as nat, k as nat + 1);
                }
            }
        }
        v = v / 2;
        k = k + 1;
    }
    proof {
        lemma_floor_log2(x as nat);
    }
    k
}

/// `2^k` as a word.
pub fn pow2_usize(k: u32) -> (p: usize)
    requires
        k < usize::BITS,
    ensures
        p as nat == pow2(k as nat),
{
    proof {
        lemma_usize_pow2_no_overflow(k as nat);
        lemma_usize_shl_is_mul(1, k as usize);
    }
    1usize << k
}

} // verus!
