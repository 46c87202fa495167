//! Cross-camera descriptor matching used to register cameras with each
//! other, and the decision whether enough matches exist to calibrate.

use vstd::prelude::*;
use crate::features::{
    hamming, distances, descriptor_views, nearest_scan, distances_fit, nearest_candidate,
    lemma_nearest_scan,
};

verus! {

/// Distance below which the nearest descriptor of another camera counts
/// as the same scene point.
pub const CROSS_MATCH_MAX_DISTANCE: u32 = 64;

/// Fewest cross-camera matches with which registration is attempted.
pub const MIN_REGISTRATION_MATCHES: usize = 8;

/// Hamming distance between two binary descriptors.
pub fn hamming_distance(a: &[u8], b: &[u8]) -> (d: u32)
    requires
        hamming(a@, b@) <= u32::MAX,
    ensures
        d == hamming(a@, b@),
{
    crate::features::hamming_distance(a, b)
}

/// The cross-camera pairs for the first `n` features of camera `a`: each
/// feature is paired with the first nearest descriptor of camera `b` when
/// that distance is below the cross-match limit.
pub open spec fn cross_pairs_upto(a: Seq<Seq<u8>>, b: Seq<Seq<u8>>, n: nat) -> Seq<(usize, usize)>
    decreases n,
{
    if n == 0 {
        Seq::empty()
    } else {
        let prev = cross_pairs_upto(a, b, (n - 1) as nat);
        let scan = nearest_scan(distances(a[n - 1], b));
        if scan.0 < CROSS_MATCH_MAX_DISTANCE {
            prev.push(((n - 1) as usize, scan.2 as usize))
        } else {
            prev
        }
    }
}

/// All cross-camera pairs from camera `a` to camera `b`.
pub open spec fn cross_pairs(a: Seq<Seq<u8>>, b: Seq<Seq<u8>>) -> Seq<(usize, usize)> {
    cross_pairs_upto(a, b, a.len())
}

/// Finds the cross-camera matches from the features of camera `a` to those
/// of camera `b`, as `(feature index in a, feature index in b)`.
pub fn find_cross_camera_matches(a: &Vec<Vec<u8>>, b: &Vec<Vec<u8>>) -> (pairs: Vec<(usize, usize)>)
    requires
        distances_fit(descriptor_views(a@), descriptor_views(b@)),
    ensures
        pairs@ == cross_pairs(descriptor_views(a@), descriptor_views(b@)),
{
    let ghost av = descriptor_views(a@);
    let ghost bv = descriptor_views(b@);
    let mut pairs: Vec<(usize, usize)> = Vec::new();
    let mut i: usize = 0;
    while i < a.len()
        invariant
            i <= a@.len(),
            av == descriptor_views(a@),
            bv == descriptor_views(b@),
            distances_fit(av, bv),
            pairs@ == cross_pairs_upto(av, bv, i as nat),
        decreases a@.len() - i,
    {
        assert forall|j: int| 0 <= j < b@.len() implies #[trigger] hamming(
            a@[i as int]@,
            b@[j]@,
        ) <= u32::MAX by {
            assert(av[i as int] == a@[i as int]@);
            assert(bv[j] == b@[j]@);
            assert(hamming(av[i as int], bv[j]) <= u32::MAX);
        }
        let (best, _second, best_j) = nearest_candidate(&a[i], b);
        assert(av[i as int] == a@[i as int]@);
        if best < CROSS_MATCH_MAX_DISTANCE {
            pairs.push((i, best_j));
        }
        i = i + 1;
    }
    pairs
}

/// Number of cross-camera matches from camera `i` to cameras `i+1 .. j_end`.
pub open spec fn matches_from_camera(cams: Seq<Seq<Seq<u8>>>, i: int, j_end: int) -> nat
    decreases j_end - i,
{
    if j_end <= i + 1 {
        0
    } else {
        matches_from_camera(cams, i, j_end - 1) + cross_pairs(cams[i], cams[j_end - 1]).len()
    }
}

/// Number of cross-camera matches over every ordered camera pair `i < j`
/// among the first `i_end` cameras.
pub open spec fn registration_matches_upto(cams: Seq<Seq<Seq<u8>>>, i_end: int) -> nat
    decreases i_end,
{
    if i_end <= 0 {
        0
    } else {
        registration_matches_upto(cams, i_end - 1) + matches_from_camera(
            cams,
            i_end - 1,
            cams.len() as int,
        )
    }
}

/// Number of cross-camera matches over every camera pair `i < j`.
pub open spec fn registration_matches(cams: Seq<Seq<Seq<u8>>>) -> nat {
    registration_matches_upto(cams, cams.len() as int)
}

/// Every descriptor distance between two different cameras fits in a `u32`.
pub open spec fn all_distances_fit(cams: Seq<Seq<Seq<u8>>>) -> bool {
    forall|i: int, j: int|
        0 <= i < j < cams.len() ==> #[trigger] distances_fit(cams[i], cams[j])
}

/// The views of each camera's descriptor list.
pub open spec fn camera_views(cams: Seq<Vec<Vec<u8>>>) -> Seq<Seq<Seq<u8>>> {
    cams.map_values(|c: Vec<Vec<u8>>| descriptor_views(c@))
}

/// Calibration decision: registration is solved only with at least two
/// cameras and at least eight cross-camera matches over all camera pairs
/// (each pair taken once, the lower-indexed camera matched against the
/// higher one).
pub fn calibrate(camera_features: &Vec<Vec<Vec<u8>>>) -> (ok: bool)
    requires
        all_distances_fit(camera_views(camera_features@)),
    ensures
        ok == (camera_features@.len() >= 2 && registration_matches(camera_views(camera_features@))
            >= MIN_REGISTRATION_MATCHES),
{
    let ghost cams = camera_views(camera_features@);
    let n: usize = camera_features.len();
    if n < 2 {
        return false;
    }
    // The count is capped at the threshold: only whether it is reached matters.
    let mut found: usize = 0;
    let mut i: usize = 0;
    while i < n
        invariant
            n == camera_features@.len(),
            cams == camera_views(camera_features@),
            all_distances_fit(cams),
            i <= n,
            found <= MIN_REGISTRATION_MATCHES,
            found == (if registration_matches_upto(cams, i as int) < MIN_REGISTRATION_MATCHES {
                registration_matches_upto(cams, i as int)
            } else {
                MIN_REGISTRATION_MATCHES as nat
            }),
        decreases n - i,
    {
        let ghost before = registration_matches_upto(cams, i as int);
        let mut j: usize = i + 1;
        while j < n
            invariant
                n == camera_features@.len(),
                cams == camera_views(camera_features@),
                all_distances_fit(cams),
                i < n,
                i + 1 <= j <= n,
                before == registration_matches_upto(cams, i as int),
                found <= MIN_REGISTRATION_MATCHES,
                found == (if before + matches_from_camera(cams, i as int, j as int)
                    < MIN_REGISTRATION_MATCHES {
                    before + matches_from_camera(cams, i as int, j as int)
                } else {
                    MIN_REGISTRATION_MATCHES as nat
                }),
            decreases n - j,
        {
            assert(cams[i as int] == descriptor_views(camera_features@[i as int]@));
            assert(cams[j as int] == descriptor_views(camera_features@[j as int]@));
            assert(distances_fit(cams[i as int], cams[j as int]));
            let pairs = find_cross_camera_matches(&camera_features[i], &camera_features[j]);
            let room: usize = MIN_REGISTRATION_MATCHES - found;
            if pairs.len() >= room {
                found = MIN_REGISTRATION_MATCHES;
            } else {
                found = found + pairs.len();
            }
            j = j + 1;
        }
        i = i + 1;
    }
    found >= MIN_REGISTRATION_MATCHES
}

/// Law: with fewer than two cameras there is no camera pair and so no
/// registration match.
pub proof fn lemma_registration_needs_two_cameras(cams: Seq<Seq<Seq<u8>>>)
    requires
        cams.len() < 2,
    ensures
        registration_matches(cams) == 0,
{
    if cams.len() == 1 {
        assert(registration_matches_upto(cams, 0) == 0);
        assert(matches_from_camera(cams, 0, 1) == 0);
    }
}

/// Law: two cameras are registered by the matches from the first camera's
/// features to the second camera's, counted once; so they can be
/// calibrated exactly when there are at least eight of them.
pub proof fn lemma_registration_two_cameras(a: Seq<Seq<u8>>, b: Seq<Seq<u8>>)
    ensures
        registration_matches(seq![a, b]) == cross_pairs(a, b).len(),
        (registration_matches(seq![a, b]) >= MIN_REGISTRATION_MATCHES) == (cross_pairs(a, b).len()
            >= 8),
{
    let cams = seq![a, b];
    assert(matches_from_camera(cams, 1, 2) == 0);
    assert(matches_from_camera(cams, 0, 1) == 0);
    assert(matches_from_camera(cams, 0, 2) == cross_pairs(a, b).len());
    assert(registration_matches_upto(cams, 0) == 0);
    assert(registration_matches_upto(cams, 1) == cross_pairs(a, b).len());
}

/// Law: three cameras are registered by the matches of each pair taken
/// once, the earlier camera matched against the later one.
pub proof fn lemma_registration_three_cameras(a: Seq<Seq<u8>>, b: Seq<Seq<u8>>, c: Seq<Seq<u8>>)
    ensures
        registration_matches(seq![a, b, c]) == cross_pairs(a, b).len() + cross_pairs(a, c).len()
            + cross_pairs(b, c).len(),
{
    let cams = seq![a, b, c];
    assert(matches_from_camera(cams, 2, 3) == 0);
    assert(matches_from_camera(cams, 1, 2) == 0);
    assert(matches_from_camera(cams, 1, 3) == cross_pairs(b, c).len());
    assert(matches_from_camera(cams, 0, 1) == 0);
    assert(matches_from_camera(cams, 0, 2) == cross_pairs(a, b).len());
    assert(matches_from_camera(cams, 0, 3) == cross_pairs(a, b).len() + cross_pairs(a, c).len());
    assert(registration_matches_upto(cams, 0) == 0);
    assert(registration_matches_upto(cams, 1) == matches_from_camera(cams, 0, 3));
    assert(registration_matches_upto(cams, 2) == matches_from_camera(cams, 0, 3)
        + matches_from_camera(cams, 1, 3));
}

/// Number of the first `n` features of `a` that have some descriptor of
/// `b` closer than 64.
pub open spec fn features_with_close_match(a: Seq<Seq<u8>>, b: Seq<Seq<u8>>, n: nat) -> nat {
    Seq::new(n, |i: int| i).filter(
        |i: int| exists|j: int| 0 <= j < b.len() && #[trigger] hamming(a[i], b[j]) < 64,
    ).len()
}

proof fn lemma_cross_pairs_upto_meaning(a: Seq<Seq<u8>>, b: Seq<Seq<u8>>, n: nat)
    requires
        n <= a.len(),
        a.len() <= usize::MAX,
        b.len() <= usize::MAX,
        distances_fit(a, b),
    ensures
        cross_pairs_upto(a, b, n).len() == features_with_close_match(a, b, n),
        forall|m: int|
            0 <= m < cross_pairs_upto(a, b, n).len() ==> {
                let (i, j) = #[trigger] cross_pairs_upto(a, b, n)[m];
                &&& i < n
                &&& j < b.len()
                &&& hamming(a[i as int], b[j as int]) < 64
                &&& forall|k: int|
                    0 <= k < b.len() ==> hamming(a[i as int], b[j as int]) <= #[trigger] hamming(
                        a[i as int],
                        b[k],
                    )
            },
    decreases n,
{
    let pr = |i: int| exists|j: int| 0 <= j < b.len() && #[trigger] hamming(a[i], b[j]) < 64;
    let f = |i: int| i;
    if n == 0 {
        assert(Seq::new(0, f).filter(pr) =~= Seq::<int>::empty()) by {
            reveal(Seq::filter);
        }
    } else {
        lemma_cross_pairs_upto_meaning(a, b, (n - 1) as nat);
        assert(Seq::new(n, f) =~= Seq::new((n - 1) as nat, f).push(n - 1));
        Seq::new((n - 1) as nat, f).lemma_filter_len_push(pr, n - 1);
        let d = distances(a[n - 1], b);
        lemma_nearest_scan(d);
        let scan = nearest_scan(d);
        let prev = cross_pairs_upto(a, b, (n - 1) as nat);
        let cur = cross_pairs_upto(a, b, n);
        if scan.0 < CROSS_MATCH_MAX_DISTANCE {
            let j = scan.2;
            assert(d[j as int] == scan.0);
            assert(hamming(a[n - 1], b[j as int]) <= u32::MAX);
            assert(pr(n - 1));
            assert forall|k: int| 0 <= k < b.len() implies scan.0 <= #[trigger] hamming(
                a[n - 1],
                b[k],
            ) by {
                assert(hamming(a[n - 1], b[k]) <= u32::MAX);
                assert(scan.0 <= d[k]);
            }
            assert forall|m: int| 0 <= m < cur.len() implies {
                let (i, j) = #[trigger] cur[m];
                &&& i < n
                &&& j < b.len()
                &&& hamming(a[i as int], b[j as int]) < 64
                &&& forall|k: int|
                    0 <= k < b.len() ==> hamming(a[i as int], b[j as int]) <= #[trigger] hamming(
                        a[i as int],
                        b[k],
                    )
            } by {
                if m < prev.len() {
                    assert(cur[m] == prev[m]);
                } else {
                    assert(cur[m] == ((n - 1) as usize, scan.2 as usize));
                }
            }
        } else {
            assert(cur == prev);
            assert(!pr(n - 1)) by {
                if pr(n - 1) {
                    let j = choose|j: int| 0 <= j < b.len() && #[trigger] hamming(a[n - 1], b[j]) < 64;
                    assert(hamming(a[n - 1], b[j]) <= u32::MAX);
                    assert(scan.0 <= d[j]);
                }
            }
        }
    }
}

/// Law: the cross-camera matches from camera `a` to camera `b` are one per
/// feature of `a` that has a descriptor of `b` closer than 64, and each
/// pairs such a feature with a nearest descriptor of `b`. (The lengths
/// are those of feature lists held in memory.)
pub proof fn lemma_cross_pairs_meaning(a: Seq<Seq<u8>>, b: Seq<Seq<u8>>)
    requires
        a.len() <= usize::MAX,
        b.len() <= usize::MAX,
        distances_fit(a, b),
    ensures
        cross_pairs(a, b).len() == features_with_close_match(a, b, a.len()),
        forall|m: int|
            0 <= m < cross_pairs(a, b).len() ==> {
                let (i, j) = #[trigger] cross_pairs(a, b)[m];
                &&& i < a.len()
                &&& j < b.len()
                &&& hamming(a[i as int], b[j as int]) < 64
                &&& forall|k: int|
                    0 <= k < b.len() ==> hamming(a[i as int], b[j as int]) <= #[trigger] hamming(
                        a[i as int],
                        b[k],
                    )
            },
{
    lemma_cross_pairs_upto_meaning(a, b, a.len());
}

} // verus!
