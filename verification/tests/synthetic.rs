use open_eyes::synthetic::{moving_rectangle, person_enters};

fn pixel(pixels: &[u8], width: usize, x: usize, y: usize) -> [u8; 3] {
    let base = 3 * (y * width + x);
    [pixels[base], pixels[base + 1], pixels[base + 2]]
}

#[test]
fn vdd_static_frames_have_no_motion_gt() {
    let seq = moving_rectangle(320, 240, 100);
    assert_eq!(seq.len(), 100);
    // First 20 frames: no motion
    for frame in &seq[0..20] {
        assert!(!frame.has_motion, "Frame {} should be static", frame.frame_index);
        assert!(frame.gt_flow_dx.is_none());
        assert!(frame.gt_bbox.is_none());
    }
    // Frames 20-79: motion
    for frame in &seq[20..80] {
        assert!(frame.has_motion, "Frame {} should have motion", frame.frame_index);
        let dx = frame.gt_flow_dx.unwrap() as f32;
        assert!((dx - 5.0).abs() < 0.01, "Expected 5px/frame flow");
    }
    // Last 20 frames: static again
    for frame in &seq[80..100] {
        assert!(!frame.has_motion, "Frame {} should be static again", frame.frame_index);
    }
}

#[test]
fn vdd_person_enters_at_correct_frame() {
    let seq = person_enters(320, 240, 100);
    for frame in &seq[0..30] {
        assert!(!frame.has_motion, "No person before frame 30");
    }
    assert!(seq[31].has_motion, "Person should be present at frame 31");
    assert!(seq[31].gt_bbox.is_some(), "Should have bbox at frame 31");
}

#[test]
fn moving_rectangle_box_and_pixels() {
    let seq = moving_rectangle(320, 240, 100);
    let f = &seq[30];
    assert_eq!(f.frame_index, 30);
    // left edge 5 * (30 - 20) = 50, top 120 - 40 = 80
    assert_eq!(f.gt_bbox, Some((50, 80, 60, 80)));
    assert_eq!(f.pixels.len(), 320 * 240 * 3);
    assert_eq!(pixel(&f.pixels, 320, 50, 80), [220, 220, 220]);
    assert_eq!(pixel(&f.pixels, 320, 109, 159), [220, 220, 220]);
    assert_eq!(pixel(&f.pixels, 320, 110, 100), [80, 80, 80]);
    assert_eq!(pixel(&f.pixels, 320, 49, 100), [80, 80, 80]);
    assert_eq!(pixel(&f.pixels, 320, 60, 160), [80, 80, 80]);
    // static frames are uniform background
    assert!(seq[5].pixels.iter().all(|&p| p == 80));
}

#[test]
fn moving_rectangle_leaves_the_image() {
    let seq = moving_rectangle(320, 240, 100);
    // at frame 72 the left edge is 260: 260 + 60 is not inside 320
    assert!(seq[71].gt_bbox.is_some());
    assert!(seq[72].has_motion);
    assert!(seq[72].gt_bbox.is_none());
    assert!(seq[72].pixels.iter().all(|&p| p == 80));
    // short sequences never move
    assert!(moving_rectangle(64, 48, 30).iter().all(|f| !f.has_motion));
    assert!(moving_rectangle(64, 48, 0).is_empty());
}

#[test]
fn person_box_is_clipped_at_the_right_edge() {
    let seq = person_enters(100, 200, 100);
    // frame 30: left edge clamped to 0, standing at 200 - 140 = 60
    assert_eq!(seq[30].gt_bbox, Some((0, 60, 50, 120)));
    assert_eq!(seq[30].gt_flow_dx, Some(3));
    // frame 80: 3 * 50 - 50 = 100, outside a 100-wide image
    assert!(!seq[80].has_motion);
    // frame 79: left edge 97, only 3 pixels wide
    assert_eq!(seq[79].gt_bbox, Some((97, 60, 3, 120)));
    assert_eq!(pixel(&seq[79].pixels, 100, 99, 179), [200, 200, 200]);
    assert_eq!(pixel(&seq[79].pixels, 100, 96, 100), [100, 100, 100]);
    assert_eq!(pixel(&seq[79].pixels, 100, 98, 180), [100, 100, 100]);
}

#[test]
fn boxes_move_by_the_ground_truth_flow() {
    let seq = moving_rectangle(320, 240, 100);
    for i in 20..71 {
        let (a, b) = (seq[i].gt_bbox.unwrap(), seq[i + 1].gt_bbox.unwrap());
        assert_eq!(b.0 - a.0, seq[i].gt_flow_dx.unwrap());
        assert_eq!(b.1, a.1);
    }
    let seq = person_enters(320, 240, 100);
    for i in 47..99 {
        let (a, b) = (seq[i].gt_bbox.unwrap(), seq[i + 1].gt_bbox.unwrap());
        assert_eq!(b.0 - a.0, seq[i].gt_flow_dx.unwrap());
    }
    // while still entering, the box is clamped at the left edge
    assert_eq!(seq[31].gt_bbox.unwrap().0, seq[32].gt_bbox.unwrap().0);
}
