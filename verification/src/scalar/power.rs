//! Powers of two and bit lengths, as far as rounding needs them.

use vstd::prelude::*;
use vstd::arithmetic::power2::{pow2, lemma_pow2_pos, lemma_pow2_adds, lemma_pow2_unfold, lemma_pow2_strictly_increases, lemma2_to64, lemma2_to64_rest};
use vstd::arithmetic::mul::lemma_mul_inequality;

verus! {

/// The number of bits of `n`: 0 for 0, else the `l` with `2^(l-1) <= n < 2^l`.
pub open spec fn bit_length(n: nat) -> nat
    decreases n,
{
    if n == 0 {
        0
    } else {
        1 + bit_length(n / 2)
    }
}

pub proof fn lemma_pow2_monotonic(a: nat, b: nat)
    requires
        a <= b,
    ensures
        pow2(a) <= pow2(b),
{
    if a < b {
        lemma_pow2_strictly_increases(a, b);
    }
}

/// `2^128`, the first power of two that no `u128` holds.
pub proof fn lemma_pow2_128()
    ensures
        pow2(64) == 0x1_0000_0000_0000_0000,
        pow2(127) == 0x8000_0000_0000_0000_0000_0000_0000_0000,
        pow2(128) == 0x1_0000_0000_0000_0000_0000_0000_0000_0000,
{
    lemma2_to64();
    lemma2_to64_rest();
    lemma_pow2_adds(64, 63);
    lemma_pow2_adds(64, 64);
}

pub proof fn lemma_bit_length_bounds(n: nat)
    requires
        n > 0,
    ensures
        bit_length(n) > 0,
        pow2((bit_length(n) - 1) as nat) <= n,
        n < pow2(bit_length(n)),
    decreases n,
{
    if n == 1 {
        assert(bit_length(1) == 1 + bit_length(0));
        lemma2_to64();
    } else {
        let h = n / 2;
        lemma_bit_length_bounds(h);
        let l = bit_length(h);
        assert(bit_length(n) == l + 1);
        lemma_pow2_unfold(l);
        lemma_pow2_unfold(l + 1);
    }
}

pub proof fn lemma_bit_length_unique(n: nat, l: nat)
    requires
        l > 0,
        pow2((l - 1) as nat) <= n,
        n < pow2(l),
    ensures
        bit_length(n) == l,
{
    lemma_pow2_pos((l - 1) as nat);
    lemma_bit_length_bounds(n);
    let k = bit_length(n);
    if k < l {
        lemma_pow2_monotonic(k, (l - 1) as nat);
    } else if k > l {
        lemma_pow2_monotonic(l, (k - 1) as nat);
    }
}

/// Scaling by `2^k` adds `k` bits.
pub proof fn lemma_bit_length_scaled(q: nat, k: nat, t: nat)
    requires
        q > 0,
        t < pow2(k),
    ensures
        bit_length(q * pow2(k) + t) == bit_length(q) + k,
{
    let l = bit_length(q);
    lemma_bit_length_bounds(q);
    lemma_pow2_pos(k);
    lemma_pow2_adds((l - 1) as nat, k);
    lemma_pow2_adds(l, k);
    assert(pow2((l - 1) as nat) * pow2(k) <= q * pow2(k)) by {
        lemma_mul_inequality(pow2((l - 1) as nat) as int, q as int, pow2(k) as int);
    }
    assert((q + 1) * pow2(k) <= pow2(l) * pow2(k)) by {
        lemma_mul_inequality((q + 1) as int, pow2(l) as int, pow2(k) as int);
    }
    assert((q + 1) * pow2(k) == q * pow2(k) + pow2(k)) by (nonlinear_arith);
    lemma_bit_length_unique(q * pow2(k) + t, l + k);
}

pub proof fn lemma_shift_one(n: u32)
    requires
        n < 128,
    ensures
        1u128 << n == pow2(n as nat),
    decreases n,
{
    if n == 0 {
        assert(1u128 << 0u32 == 1u128) by (bit_vector);
        lemma2_to64();
    } else {
        let m = (n - 1) as u32;
        lemma_shift_one(m);
        assert(1u128 << n == 2 * (1u128 << m)) by (bit_vector)
            requires
                0 < n < 128,
                m == n - 1,
        ;
        lemma_pow2_unfold(n as nat);
    }
}

/// `2^n` as a machine integer.
pub(crate) fn pow2_u128(n: u32) -> (r: u128)
    requires
        n < 128,
    ensures
        r == pow2(n as nat),
        r > 0,
{
    proof {
        lemma_shift_one(n);
        lemma_pow2_pos(n as nat);
    }
    1u128 << n
}

/// The number of bits of `x`.
pub(crate) fn bit_length_u128(x: u128) -> (l: u32)
    ensures
        l == bit_length(x as nat),
        l <= 128,
{
    let mut rest: u128 = x;
    let mut l: u32 = 0;
    proof {
        lemma2_to64();
    }
    while rest > 0
        invariant
            bit_length(x as nat) == l + bit_length(rest as nat),
            l <= 128,
            rest > 0 ==> l < 128,
            rest as nat * pow2(l as nat) <= x,
        decreases rest,
    {
        proof {
            lemma_pow2_unfold((l + 1) as nat);
            assert((rest / 2) * (2 * pow2(l as nat)) <= rest * pow2(l as nat)) by (nonlinear_arith)
                requires
                    (rest / 2) * 2 <= rest,
            ;
            if rest / 2 > 0 && l + 1 >= 128 {
                lemma_pow2_128();
                lemma_pow2_monotonic(128, (l + 1) as nat);
                assert((rest / 2) * pow2((l + 1) as nat) >= pow2((l + 1) as nat)) by (nonlinear_arith)
                    requires
                        rest / 2 >= 1,
                ;
            }
        }
        rest = rest / 2;
        l = l + 1;
    }
    l
}

} // verus!
