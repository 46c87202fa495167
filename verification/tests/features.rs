use open_eyes::features::{hamming_distance, match_features};
use open_eyes::fusion;

#[test]
fn hamming_identical() {
    let a = vec![0xFF, 0x00, 0xAA];
    assert_eq!(hamming_distance(&a, &a), 0);
}

#[test]
fn hamming_opposite() {
    assert_eq!(hamming_distance(&[0xFF], &[0x00]), 8);
}

#[test]
fn hamming_distance_identical() {
    let a = vec![0xFF, 0x00, 0xAA];
    assert_eq!(fusion::hamming_distance(&a, &a), 0);
}

#[test]
fn hamming_distance_opposite() {
    let a = vec![0xFF];
    let b = vec![0x00];
    assert_eq!(fusion::hamming_distance(&a, &b), 8);
}

#[test]
fn hamming_counts_only_shared_bytes() {
    // the longer descriptor's extra byte is not compared
    assert_eq!(hamming_distance(&[0x0F, 0xFF], &[0x00]), 4);
    assert_eq!(hamming_distance(&[0b1010_1010], &[0b0101_0101]), 8);
    assert_eq!(hamming_distance(&[0b1000_0001, 0x03], &[0x00, 0x01]), 3);
}

#[test]
fn hamming_is_symmetric_on_examples() {
    let a = [0x12u8, 0x34, 0x56];
    let b = [0xABu8, 0xCD, 0xEF];
    assert_eq!(hamming_distance(&a, &b), hamming_distance(&b, &a));
}

#[test]
fn match_features_basic() {
    let a = vec![vec![0xFFu8; 32], vec![0x00u8; 32]];
    let b = vec![vec![0x00u8; 32], vec![0xFEu8; 32]];
    let matches = match_features(&a, &b, 64);
    // a[0] (0xFF) should match b[1] (0xFE) — 1 bit per byte, 32 bits
    // a[1] (0x00) should match b[0] (0x00) — exact match
    assert!(!matches.is_empty());
    assert_eq!(matches, vec![(0, 1, 32), (1, 0, 0)]);
}

#[test]
fn match_features_rejects_ambiguous() {
    // two equally close candidates: the ratio test rejects the match
    let a = vec![vec![0x00u8; 4]];
    let b = vec![vec![0x01u8; 4], vec![0x02u8; 4]];
    assert!(match_features(&a, &b, 64).is_empty());
}

#[test]
fn match_features_respects_max_distance() {
    let a = vec![vec![0x00u8; 4]];
    let b = vec![vec![0x0Fu8; 4], vec![0xFFu8; 4]];
    // best is 16 bits away, runner-up 32: passes the ratio test but not a limit of 16
    assert_eq!(match_features(&a, &b, 17), vec![(0, 0, 16)]);
    assert!(match_features(&a, &b, 16).is_empty());
}

#[test]
fn match_features_ratio_boundary() {
    // best 3, second 4: 3 < 0.75 * 4 is false
    let a = vec![vec![0x00u8]];
    let b = vec![vec![0x07u8], vec![0x0Fu8]];
    assert!(match_features(&a, &b, 64).is_empty());
    // best 2, second 4: 2 < 3 holds
    let b2 = vec![vec![0x03u8], vec![0x0Fu8]];
    assert_eq!(match_features(&a, &b2, 64), vec![(0, 0, 2)]);
}

#[test]
fn match_features_single_candidate_always_passes_ratio() {
    let a = vec![vec![0x01u8; 2]];
    let b = vec![vec![0x00u8; 2]];
    assert_eq!(match_features(&a, &b, 64), vec![(0, 0, 2)]);
    assert!(match_features(&a, &Vec::new(), 64).is_empty());
}

#[test]
fn cross_camera_matches_take_first_nearest() {
    let a = vec![vec![0x00u8; 8], vec![0xFEu8; 8]];
    let b = vec![vec![0x01u8; 8], vec![0x01u8; 8]];
    // a[0] is 8 bits from both: the first one is taken; a[1] is 64 bits away
    assert_eq!(fusion::find_cross_camera_matches(&a, &b), vec![(0, 0)]);
}

#[test]
fn calibrate_needs_two_cameras_and_eight_matches() {
    let cam = vec![vec![0xAAu8; 4]; 8];
    assert!(!fusion::calibrate(&vec![cam.clone()]));
    assert!(fusion::calibrate(&vec![cam.clone(), cam.clone()]));
    let few = vec![vec![0xAAu8; 4]; 3];
    assert!(!fusion::calibrate(&vec![few.clone(), few.clone()]));
    // three cameras of three features: 3 pairs x 3 matches = 9
    assert!(fusion::calibrate(&vec![few.clone(), few.clone(), few.clone()]));
}
