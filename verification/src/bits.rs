//! Bit counting: the number of set bits of a natural number, and
//! executable population counts for the integer widths the library uses.

use vstd::prelude::*;
use vstd::arithmetic::power2::{pow2, lemma_pow2_unfold};

verus! {

/// Number of one bits in the binary expansion of `x`.
pub open spec fn bit_count(x: nat) -> nat
    decreases x,
{
    if x == 0 {
        0
    } else {
        (x % 2) + bit_count(x / 2)
    }
}

/// A number below `2^k` has at most `k` one bits.
pub proof fn lemma_bit_count_bound(x: nat, k: nat)
    requires
        x < pow2(k),
    ensures
        bit_count(x) <= k,
    decreases k,
{
    if x != 0 {
        if k == 0 {
            vstd::arithmetic::power2::lemma2_to64();
        } else {
            lemma_pow2_unfold(k);
            lemma_bit_count_bound(x / 2, (k - 1) as nat);
        }
    }
}

/// Every `u8` has at most 8 one bits.
pub proof fn lemma_bit_count_u8(x: u8)
    ensures
        bit_count(x as nat) <= 8,
{
    assert(pow2(8) == 256) by {
        vstd::arithmetic::power2::lemma2_to64();
    }
    lemma_bit_count_bound(x as nat, 8);
}

/// Every `u64` has at most 64 one bits.
pub proof fn lemma_bit_count_u64(x: u64)
    ensures
        bit_count(x as nat) <= 64,
{
    assert(pow2(64) == 0x1_0000_0000_0000_0000) by {
        vstd::arithmetic::power2::lemma2_to64_rest();
    }
    lemma_bit_count_bound(x as nat, 64);
}

/// Population count of a 64-bit word.
pub fn ones_u64(x: u64) -> (r: u32)
    ensures
        r == bit_count(x as nat),
        r <= 64,
{
    proof {
        lemma_bit_count_u64(x);
    }
    let mut v: u64 = x;
    let mut c: u32 = 0;
    while v > 0
        invariant
            c + bit_count(v as nat) == bit_count(x as nat),
            bit_count(x as nat) <= 64,
        decreases v,
    {
        assert(bit_count(v as nat) == (v as nat % 2) + bit_count(v as nat / 2));
        c = c + (v % 2) as u32;
        v = v / 2;
    }
    c
}

/// Population count of a byte.
pub fn ones_u8(x: u8) -> (r: u32)
    ensures
        r == bit_count(x as nat),
        r <= 8,
{
    proof {
        lemma_bit_count_u8(x);
    }
    ones_u64(x as u64)
}

} // verus!
