use open_eyes::scene_hash::{compute_hash, hash_distance};

#[test]
fn hash_of_uniform_image_is_zero() {
    // no pixel is brighter than the mean
    assert_eq!(compute_hash(&[128u8; 64]), 0);
    assert_eq!(compute_hash(&[]), 0);
}

#[test]
fn hash_marks_bright_pixels() {
    let mut px = [10u8; 64];
    px[0] = 200;
    px[5] = 200;
    px[63] = 200;
    assert_eq!(compute_hash(&px), 1 | (1 << 5) | (1u64 << 63));
}

#[test]
fn hash_uses_only_first_64_pixels() {
    let mut px = vec![0u8; 100];
    px[70] = 255; // raises the mean but adds no bit
    px[1] = 255;
    assert_eq!(compute_hash(&px), 1 << 1);
}

#[test]
fn hash_of_small_image() {
    assert_eq!(compute_hash(&[0, 10, 20]), 0b100);
}

#[test]
fn identical_frames_have_zero_hash_distance() {
    let mut img = vec![0u8; 64];
    for (i, p) in img.iter_mut().enumerate() {
        *p = ((i * 37) % 256) as u8;
    }
    let h1 = compute_hash(&img);
    let h2 = compute_hash(&img);
    assert_eq!(hash_distance(h1, h2), 0);
}

#[test]
fn hash_distance_counts_differing_bits() {
    assert_eq!(hash_distance(0, u64::MAX), 64);
    assert_eq!(hash_distance(0b1011, 0b0001), 2);
    assert_eq!(hash_distance(0xF0, 0x0F), hash_distance(0x0F, 0xF0));
}

#[test]
fn orthogonal_stripes_hash_far_apart() {
    // 8x8 horizontal stripes vs vertical stripes
    let mut a = vec![0u8; 64];
    let mut b = vec![0u8; 64];
    for y in 0..8 {
        for x in 0..8 {
            a[y * 8 + x] = if y % 2 == 0 { 200 } else { 50 };
            b[y * 8 + x] = if x % 2 == 0 { 200 } else { 50 };
        }
    }
    assert_eq!(hash_distance(compute_hash(&a), compute_hash(&b)), 32);
}
