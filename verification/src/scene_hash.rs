//! Average-hash of a (downsampled) greyscale image and the distance
//! between two hashes, used to notice sudden scene-wide changes.
//!
//! Each of the first 64 pixels contributes one bit, set when the pixel is
//! brighter than the mean of all pixels.

use vstd::prelude::*;
use vstd::arithmetic::power2::{pow2, lemma_pow2_unfold, lemma2_to64, lemma2_to64_rest};
use crate::bits::{bit_count, ones_u64};

verus! {

/// Sum of the first `k` pixel values.
pub open spec fn pixel_sum_upto(p: Seq<u8>, k: nat) -> nat
    decreases k,
{
    if k == 0 {
        0
    } else {
        pixel_sum_upto(p, (k - 1) as nat) + p[k - 1] as nat
    }
}

/// Sum of all pixel values.
pub open spec fn pixel_sum(p: Seq<u8>) -> nat {
    pixel_sum_upto(p, p.len())
}

/// A pixel lies strictly above the mean intensity of `p`:
/// `x > sum / len`, written without division.
pub open spec fn above_mean(x: u8, p: Seq<u8>) -> bool {
    x * p.len() > pixel_sum(p)
}

/// The number of pixels that contribute a bit: at most 64.
pub open spec fn hashed_len(p: Seq<u8>) -> nat {
    if p.len() < 64 {
        p.len()
    } else {
        64
    }
}

/// The hash bits of the first `k` pixels, as a binary number: pixel `i`
/// contributes `2^i` when it lies above the mean.
pub open spec fn hash_upto(p: Seq<u8>, k: nat) -> nat
    decreases k,
{
    if k == 0 {
        0
    } else {
        hash_upto(p, (k - 1) as nat) + (if above_mean(p[k - 1], p) {
            pow2((k - 1) as nat)
        } else {
            0
        })
    }
}

/// The average hash of a pixel list: 0 for no pixels, otherwise bit `i` is
/// set for each of the first 64 pixels that is brighter than the mean.
pub open spec fn average_hash(p: Seq<u8>) -> nat {
    if p.len() == 0 {
        0
    } else {
        hash_upto(p, hashed_len(p))
    }
}

proof fn lemma_pow2_le(e1: nat, e2: nat)
    requires
        e1 <= e2,
    ensures
        pow2(e1) <= pow2(e2),
{
    if e1 < e2 {
        vstd::arithmetic::power2::lemma_pow2_strictly_increases(e1, e2);
    }
}

proof fn lemma_pixel_sum_bound(p: Seq<u8>, k: nat)
    ensures
        pixel_sum_upto(p, k) <= 255 * k,
    decreases k,
{
    if k > 0 {
        lemma_pixel_sum_bound(p, (k - 1) as nat);
    }
}

proof fn lemma_hash_upto_bound(p: Seq<u8>, k: nat)
    ensures
        hash_upto(p, k) < pow2(k),
    decreases k,
{
    if k == 0 {
        lemma2_to64();
    } else {
        lemma_hash_upto_bound(p, (k - 1) as nat);
        lemma_pow2_unfold(k);
    }
}

/// Law: the hash fits in 64 bits.
pub proof fn lemma_average_hash_fits(p: Seq<u8>)
    ensures
        average_hash(p) < 0x1_0000_0000_0000_0000,
{
    if p.len() > 0 {
        lemma_hash_upto_bound(p, hashed_len(p));
        lemma_pow2_le(hashed_len(p), 64);
        lemma2_to64_rest();
    }
}

/// Average hash of a greyscale image given as its pixel values (the
/// image is expected to be downsampled to about 8x8 first).
pub fn compute_hash(pixels: &[u8]) -> (h: u64)
    ensures
        h == average_hash(pixels@),
{
    let n: usize = pixels.len();
    if n == 0 {
        return 0;
    }
    let mut sum: u128 = 0;
    let mut i: usize = 0;
    while i < n
        invariant
            n == pixels@.len(),
            i <= n,
            sum == pixel_sum_upto(pixels@, i as nat),
        decreases n - i,
    {
        proof {
            lemma_pixel_sum_bound(pixels@, i as nat);
        }
        sum = sum + pixels[i] as u128;
        i = i + 1;
    }
    let limit: usize = if n < 64 {
        n
    } else {
        64
    };
    let mut hash: u64 = 0;
    let mut weight: u64 = 1;
    let mut k: usize = 0;
    proof {
        lemma2_to64();
    }
    while k < limit
        invariant
            n == pixels@.len(),
            n > 0,
            limit == hashed_len(pixels@),
            limit <= 64,
            k <= limit,
            sum == pixel_sum(pixels@),
            hash == hash_upto(pixels@, k as nat),
            k < limit ==> weight == pow2(k as nat),
        decreases limit - k,
    {
        proof {
            lemma_hash_upto_bound(pixels@, k as nat);
            lemma_pow2_unfold((k + 1) as nat);
            lemma_pow2_le((k + 1) as nat, 64);
            if k + 1 < limit {
                lemma_pow2_le((k + 1) as nat, 63);
            }
            lemma2_to64_rest();
            lemma_pixel_sum_bound(pixels@, n as nat);
            assert((pixels@[k as int] as nat) * (n as nat) <= 255 * (n as nat)) by (nonlinear_arith)
                requires
                    pixels@[k as int] <= 255,
            ;
        }
        let brighter: bool = (pixels[k] as u128) * (n as u128) > sum;
        if brighter {
            hash = hash + weight;
        }
        if k + 1 < limit {
            weight = weight * 2;
        }
        k = k + 1;
    }
    hash
}

/// Hamming distance between two 64-bit hashes.
pub fn hash_distance(a: u64, b: u64) -> (d: u32)
    ensures
        d == bit_count((a ^ b) as nat),
        d <= 64,
{
    ones_u64(a ^ b)
}

/// Law: identical frames hash identically, and a hash is at distance zero
/// from itself.
pub proof fn lemma_identical_frames_zero_distance(p: Seq<u8>, q: Seq<u8>)
    requires
        p == q,
    ensures
        average_hash(p) == average_hash(q),
        bit_count(((average_hash(p) as u64) ^ (average_hash(q) as u64)) as nat) == 0,
{
    let h = average_hash(p) as u64;
    assert(h ^ h == 0u64) by (bit_vector);
}

/// Law: the hash distance does not depend on argument order.
pub proof fn lemma_hash_distance_symmetric(a: u64, b: u64)
    ensures
        bit_count((a ^ b) as nat) == bit_count((b ^ a) as nat),
{
    assert(a ^ b == b ^ a) by (bit_vector);
}

} // verus!
