//! Binary descriptor distances and descriptor matching.
//!
//! ORB descriptors are byte strings; two descriptors are compared bit by
//! bit, and a feature of one frame is paired with its nearest descriptor in
//! another frame only when that nearest match is clearly better than the
//! runner-up (Lowe's ratio test).

use vstd::prelude::*;
use crate::bits::{bit_count, ones_u8, lemma_bit_count_u8};

verus! {

/// Sum of the differing bits of the first `n` byte pairs of `a` and `b`.
pub open spec fn hamming_upto(a: Seq<u8>, b: Seq<u8>, n: nat) -> nat
    decreases n,
{
    if n == 0 {
        0
    } else {
        hamming_upto(a, b, (n - 1) as nat) + bit_count((a[n - 1] ^ b[n - 1]) as nat)
    }
}

/// Number of positions shared by two byte strings (pairs are formed up to
/// the shorter one).
pub open spec fn common_len(a: Seq<u8>, b: Seq<u8>) -> nat {
    if a.len() <= b.len() {
        a.len()
    } else {
        b.len()
    }
}

/// Hamming distance between two descriptors: the differing bits over the
/// byte pairs they share.
pub open spec fn hamming(a: Seq<u8>, b: Seq<u8>) -> nat {
    hamming_upto(a, b, common_len(a, b))
}

/// A prefix of the pairs never differs in more bits than a longer prefix.
pub proof fn lemma_hamming_upto_monotone(a: Seq<u8>, b: Seq<u8>, m: nat, n: nat)
    requires
        m <= n,
    ensures
        hamming_upto(a, b, m) <= hamming_upto(a, b, n),
    decreases n,
{
    if m < n {
        lemma_hamming_upto_monotone(a, b, m, (n - 1) as nat);
    }
}

/// Each byte pair contributes at most 8 differing bits.
pub proof fn lemma_hamming_upto_bound(a: Seq<u8>, b: Seq<u8>, n: nat)
    ensures
        hamming_upto(a, b, n) <= 8 * n,
    decreases n,
{
    if n > 0 {
        lemma_hamming_upto_bound(a, b, (n - 1) as nat);
        lemma_bit_count_u8(a[n - 1] ^ b[n - 1]);
    }
}

/// Law: a descriptor is at distance zero from itself.
pub proof fn lemma_hamming_self_zero(a: Seq<u8>)
    ensures
        hamming(a, a) == 0,
{
    lemma_hamming_upto_self(a, a.len());
}

proof fn lemma_hamming_upto_self(a: Seq<u8>, n: nat)
    ensures
        hamming_upto(a, a, n) == 0,
    decreases n,
{
    if n > 0 {
        lemma_hamming_upto_self(a, (n - 1) as nat);
        let x = a[n - 1];
        assert(x ^ x == 0u8) by (bit_vector);
    }
}

/// Law: the distance does not depend on the order of the two descriptors.
pub proof fn lemma_hamming_symmetric(a: Seq<u8>, b: Seq<u8>)
    ensures
        hamming(a, b) == hamming(b, a),
{
    lemma_hamming_upto_symmetric(a, b, common_len(a, b));
}

proof fn lemma_hamming_upto_symmetric(a: Seq<u8>, b: Seq<u8>, n: nat)
    ensures
        hamming_upto(a, b, n) == hamming_upto(b, a, n),
    decreases n,
{
    if n > 0 {
        lemma_hamming_upto_symmetric(a, b, (n - 1) as nat);
        let x = a[n - 1];
        let y = b[n - 1];
        assert(x ^ y == y ^ x) by (bit_vector);
    }
}

/// Law: the distance never exceeds 8 bits per shared byte.
pub proof fn lemma_hamming_bound(a: Seq<u8>, b: Seq<u8>)
    ensures
        hamming(a, b) <= 8 * common_len(a, b),
{
    lemma_hamming_upto_bound(a, b, common_len(a, b));
}

/// Hamming distance between two binary descriptors: the number of bits
/// that differ over the bytes the two descriptors share.
pub fn hamming_distance(a: &[u8], b: &[u8]) -> (d: u32)
    requires
        hamming(a@, b@) <= u32::MAX,
    ensures
        d == hamming(a@, b@),
{
    let n: usize = if a.len() <= b.len() {
        a.len()
    } else {
        b.len()
    };
    let mut acc: u32 = 0;
    let mut i: usize = 0;
    while i < n
        invariant
            n == common_len(a@, b@),
            n <= a@.len(),
            n <= b@.len(),
            i <= n,
            acc == hamming_upto(a@, b@, i as nat),
            hamming(a@, b@) <= u32::MAX,
        decreases n - i,
    {
        proof {
            lemma_hamming_upto_monotone(a@, b@, (i + 1) as nat, n as nat);
        }
        let x: u8 = a[i] ^ b[i];
        let c: u32 = ones_u8(x);
        acc = acc + c;
        i = i + 1;
    }
    acc
}


/// The distances from descriptor `d` to each candidate descriptor, in
/// candidate order.
pub open spec fn distances(d: Seq<u8>, candidates: Seq<Seq<u8>>) -> Seq<u32> {
    Seq::new(candidates.len(), |j: int| hamming(d, candidates[j]) as u32)
}

/// The views of a list of byte vectors.
pub open spec fn descriptor_views(v: Seq<Vec<u8>>) -> Seq<Seq<u8>> {
    v.map_values(|x: Vec<u8>| x@)
}

/// Scanning candidate distances in order while keeping the best distance,
/// the runner-up distance and the index of the best candidate; both
/// distances start out at `u32::MAX` and a candidate only displaces one
/// when it is strictly smaller.
pub open spec fn nearest_scan(d: Seq<u32>) -> (u32, u32, nat)
    decreases d.len(),
{
    if d.len() == 0 {
        (u32::MAX, u32::MAX, 0)
    } else {
        let prev = nearest_scan(d.drop_last());
        let x = d.last();
        if x < prev.0 {
            (x, prev.0, (d.len() - 1) as nat)
        } else if x < prev.1 {
            (prev.0, x, prev.2)
        } else {
            prev
        }
    }
}

/// A nearest candidate is accepted when it is closer than `max_distance`
/// and clearly better than the runner-up: best < 0.75 * second.
pub open spec fn passes_ratio_test(best: u32, second: u32, max_distance: u32) -> bool {
    best < max_distance && 4 * best < 3 * second
}

/// The matches found for the first `n` features of `a` against `b`:
/// `(index in a, index in b, distance)`, in the order of `a`.
pub open spec fn matches_upto(
    a: Seq<Seq<u8>>,
    b: Seq<Seq<u8>>,
    max_distance: u32,
    n: nat,
) -> Seq<(usize, usize, u32)>
    decreases n,
{
    if n == 0 {
        Seq::empty()
    } else {
        let prev = matches_upto(a, b, max_distance, (n - 1) as nat);
        let scan = nearest_scan(distances(a[n - 1], b));
        if passes_ratio_test(scan.0, scan.1, max_distance) {
            prev.push(((n - 1) as usize, scan.2 as usize, scan.0))
        } else {
            prev
        }
    }
}

/// Every pair of descriptors has a distance that fits in a `u32`.
pub open spec fn distances_fit(a: Seq<Seq<u8>>, b: Seq<Seq<u8>>) -> bool {
    forall|i: int, j: int|
        0 <= i < a.len() && 0 <= j < b.len() ==> #[trigger] hamming(a[i], b[j]) <= u32::MAX
}

/// What the scan keeps: the best distance is a minimum (`u32::MAX` when no
/// candidate is below it), its index is the first candidate reaching it,
/// and the runner-up is the smallest distance among the other candidates.
pub proof fn lemma_nearest_scan(d: Seq<u32>)
    ensures
        ({
            let (best, second, j) = nearest_scan(d);
            &&& best <= second
            &&& forall|k: int| 0 <= k < d.len() ==> best <= #[trigger] d[k]
            &&& best < u32::MAX ==> {
                &&& j < d.len()
                &&& d[j as int] == best
                &&& forall|k: int| 0 <= k < j ==> best < #[trigger] d[k]
            }
            &&& forall|k: int| 0 <= k < d.len() && k != j ==> second <= #[trigger] d[k]
            &&& second < u32::MAX ==> exists|k: int|
                0 <= k < d.len() && k != j && #[trigger] d[k] == second
        }),
    decreases d.len(),
{
    if d.len() > 0 {
        let p = d.drop_last();
        lemma_nearest_scan(p);
        let (best, second, j) = nearest_scan(p);
        assert forall|k: int| 0 <= k < p.len() implies p[k] == d[k] by {}
        if second < u32::MAX {
            let w = choose|k: int| 0 <= k < p.len() && k != j && #[trigger] p[k] == second;
            assert(d[w] == second);
        }
        if best < u32::MAX {
            assert(d[j as int] == best);
        }
    }
}

/// Finds, among `candidates`, the nearest descriptor to `d`: returns the
/// best distance, the runner-up distance and the index of the best.
pub(crate) fn nearest_candidate(d: &Vec<u8>, candidates: &Vec<Vec<u8>>) -> (r: (u32, u32, usize))
    requires
        forall|j: int|
            0 <= j < candidates@.len() ==> #[trigger] hamming(d@, candidates@[j]@) <= u32::MAX,
    ensures
        ({
            let scan = nearest_scan(distances(d@, descriptor_views(candidates@)));
            r.0 == scan.0 && r.1 == scan.1 && r.2 as nat == scan.2
        }),
{
    let ghost all = distances(d@, descriptor_views(candidates@));
    let mut best: u32 = u32::MAX;
    let mut second: u32 = u32::MAX;
    let mut best_j: usize = 0;
    let mut j: usize = 0;
    assert(all.take(0) =~= Seq::<u32>::empty());
    while j < candidates.len()
        invariant
            j <= candidates@.len(),
            all == distances(d@, descriptor_views(candidates@)),
            all.len() == candidates@.len(),
            forall|k: int|
                0 <= k < candidates@.len() ==> #[trigger] hamming(d@, candidates@[k]@)
                    <= u32::MAX,
            nearest_scan(all.take(j as int)) == (best, second, best_j as nat),
            best_j <= j,
        decreases candidates@.len() - j,
    {
        let dist = hamming_distance(d.as_slice(), candidates[j].as_slice());
        assert(all.take(j + 1).drop_last() =~= all.take(j as int));
        assert(all[j as int] == dist);
        if dist < best {
            second = best;
            best = dist;
            best_j = j;
        } else if dist < second {
            second = dist;
        }
        j = j + 1;
    }
    assert(all.take(j as int) =~= all);
    (best, second, best_j)
}

/// Matches features between two descriptor sets: each descriptor of
/// `features_a` is paired with its nearest descriptor in `features_b` when
/// that distance is below `max_distance` and passes Lowe's ratio test.
/// Returns `(index_a, index_b, distance)` in the order of `features_a`.
pub fn match_features(
    features_a: &Vec<Vec<u8>>,
    features_b: &Vec<Vec<u8>>,
    max_distance: u32,
) -> (matches: Vec<(usize, usize, u32)>)
    requires
        distances_fit(descriptor_views(features_a@), descriptor_views(features_b@)),
    ensures
        matches@ == matches_upto(
            descriptor_views(features_a@),
            descriptor_views(features_b@),
            max_distance,
            features_a@.len(),
        ),
{
    let ghost av = descriptor_views(features_a@);
    let ghost bv = descriptor_views(features_b@);
    let mut matches: Vec<(usize, usize, u32)> = Vec::new();
    let mut i: usize = 0;
    while i < features_a.len()
        invariant
            i <= features_a@.len(),
            av == descriptor_views(features_a@),
            bv == descriptor_views(features_b@),
            distances_fit(av, bv),
            matches@ == matches_upto(av, bv, max_distance, i as nat),
        decreases features_a@.len() - i,
    {
        assert forall|j: int| 0 <= j < features_b@.len() implies
            #[trigger] hamming(features_a@[i as int]@, features_b@[j]@) <= u32::MAX by {
            assert(av[i as int] == features_a@[i as int]@);
            assert(bv[j] == features_b@[j]@);
            assert(hamming(av[i as int], bv[j]) <= u32::MAX);
        }
        let (best, second, best_j) = nearest_candidate(&features_a[i], features_b);
        assert(av[i as int] == features_a@[i as int]@);
        if best < max_distance && (best as u64) * 4 < (second as u64) * 3 {
            matches.push((i, best_j, best));
        }
        i = i + 1;
    }
    matches
}

/// Law: every accepted match pairs a feature with a nearest descriptor of
/// the other set, at the reported distance, below `max_distance`.
pub proof fn lemma_matches_are_nearest(
    a: Seq<Seq<u8>>,
    b: Seq<Seq<u8>>,
    max_distance: u32,
    n: nat,
)
    requires
        n <= a.len(),
        a.len() <= usize::MAX,
        b.len() <= usize::MAX,
        distances_fit(a, b),
    ensures
        forall|m: int|
            0 <= m < matches_upto(a, b, max_distance, n).len() ==> {
                let (i, j, dist) = #[trigger] matches_upto(a, b, max_distance, n)[m];
                &&& i < n
                &&& j < b.len()
                &&& dist < max_distance
                &&& dist == hamming(a[i as int], b[j as int])
                &&& forall|k: int| 0 <= k < b.len() ==> dist <= #[trigger] hamming(a[i as int], b[k])
            },
    decreases n,
{
    if n > 0 {
        lemma_matches_are_nearest(a, b, max_distance, (n - 1) as nat);
        let d = distances(a[n - 1], b);
        lemma_nearest_scan(d);
        let scan = nearest_scan(d);
        let prev = matches_upto(a, b, max_distance, (n - 1) as nat);
        let cur = matches_upto(a, b, max_distance, n);
        if passes_ratio_test(scan.0, scan.1, max_distance) {
            let j = scan.2;
            assert(d[j as int] == scan.0);
            assert(hamming(a[n - 1], b[j as int]) <= u32::MAX);
            assert forall|k: int| 0 <= k < b.len() implies scan.0 <= #[trigger] hamming(
                a[n - 1],
                b[k],
            ) by {
                assert(hamming(a[n - 1], b[k]) <= u32::MAX);
                assert(scan.0 <= d[k]);
            }
            assert forall|m: int| 0 <= m < cur.len() implies {
                let (i, j, dist) = #[trigger] cur[m];
                &&& i < n
                &&& j < b.len()
                &&& dist < max_distance
                &&& dist == hamming(a[i as int], b[j as int])
                &&& forall|k: int| 0 <= k < b.len() ==> dist <= #[trigger] hamming(a[i as int], b[k])
            } by {
                if m < prev.len() {
                    assert(cur[m] == prev[m]);
                } else {
                    assert(cur[m] == ((n - 1) as usize, scan.2 as usize, scan.0));
                }
            }
        } else {
            assert(cur == prev);
        }
    }
}

} // verus!
