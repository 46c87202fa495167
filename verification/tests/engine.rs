use open_eyes::camera::{file_name_or_url, source_name, ReconnectState};
use open_eyes::ffi::engine::{bgra_to_rgb, gray_to_rgb, EventLog};
use open_eyes::ffi::types::OEConfig;

#[test]
fn engine_default_config() {
    let config = OEConfig::default();
    assert_eq!(config.max_cameras, 16);
    assert!(config.enable_flow);
    assert!(config.enable_features);
    assert!(!config.enable_ml); // off by default
}

/// The value of the pixel at (`x`, `y`) of a `width`-wide RGB buffer.
fn pixel(rgb: &[u8], width: usize, x: usize, y: usize) -> [u8; 3] {
    let base = 3 * (y * width + x);
    [rgb[base], rgb[base + 1], rgb[base + 2]]
}

#[test]
fn events_start_empty() {
    let mut log: EventLog<f32> = EventLog::new();
    let mut count = 0;
    for _ in log.drain() {
        count += 1;
    }
    assert_eq!(count, 0);
}

#[test]
fn poll_events_drains_buffer() {
    let mut log: EventLog<f32> = EventLog::new();
    log.push(0.5);

    // first poll: the event comes out
    let received = log.drain();
    assert_eq!(received.len(), 1);
    assert!((received[0] - 0.5).abs() < 0.001);

    // second poll: nothing left
    assert_eq!(log.drain().len(), 0);
}

#[test]
fn event_ring_buffer_caps_at_256() {
    let mut log: EventLog<f32> = EventLog::new();
    for i in 0..300 {
        log.push(i as f32);
    }
    assert_eq!(log.len(), 256);

    let received = log.drain();
    assert_eq!(received.len(), 256);
    // the first event left is #44 (300 - 256)
    assert!((received[0] - 44.0).abs() < 0.001);
    assert!((received[255] - 299.0).abs() < 0.001);
    assert_eq!(log.len(), 0);
}

#[test]
fn event_log_keeps_order_below_capacity() {
    let mut log = EventLog::new();
    assert_eq!(log.len(), 0);
    log.push("a");
    log.push("b");
    assert_eq!(log.drain(), vec!["a", "b"]);
    assert!(log.drain().is_empty());
}

#[test]
fn event_log_from_a_partly_full_log_keeps_the_latest() {
    let mut log: EventLog<u32> = EventLog::new();
    for i in 0..200u32 {
        log.push(i);
    }
    for i in 200..300u32 {
        log.push(i);
    }
    let kept = log.drain();
    // 200 old + 100 new: the last 256 of them, in order
    assert_eq!(kept, (44..300u32).collect::<Vec<u32>>());
}

#[test]
fn bgra_to_rgb_pure_red() {
    // BGRA for red: B=0, G=0, R=255, A=255
    let bgra = vec![0u8, 0, 255, 255];
    let rgb = bgra_to_rgb(&bgra, 1, 1);
    assert_eq!(pixel(&rgb, 1, 0, 0), [255, 0, 0]);
}

#[test]
fn bgra_to_rgb_pure_blue() {
    let bgra = vec![255u8, 0, 0, 255];
    let rgb = bgra_to_rgb(&bgra, 1, 1);
    assert_eq!(pixel(&rgb, 1, 0, 0), [0, 0, 255]);
}

#[test]
fn vdd_bgra_conversion_preserves_color_accuracy() {
    let mut bgra = Vec::new();
    bgra.extend_from_slice(&[0, 0, 255, 255]); // (0,0) red
    bgra.extend_from_slice(&[0, 255, 0, 255]); // (1,0) green
    bgra.extend_from_slice(&[255, 0, 0, 255]); // (0,1) blue
    bgra.extend_from_slice(&[255, 255, 255, 255]); // (1,1) white

    let rgb = bgra_to_rgb(&bgra, 2, 2);

    assert_eq!(pixel(&rgb, 2, 0, 0), [255, 0, 0], "Red pixel");
    assert_eq!(pixel(&rgb, 2, 1, 0), [0, 255, 0], "Green pixel");
    assert_eq!(pixel(&rgb, 2, 0, 1), [0, 0, 255], "Blue pixel");
    assert_eq!(pixel(&rgb, 2, 1, 1), [255, 255, 255], "White pixel");
}

#[test]
fn bgra_to_rgb_drops_alpha_in_order() {
    let two = [1u8, 2, 3, 4, 5, 6, 7, 8];
    assert_eq!(bgra_to_rgb(&two, 2, 1), vec![3, 2, 1, 7, 6, 5]);
    // the last pixel only needs its red byte to be present
    let no_alpha = [1u8, 2, 3, 4, 5, 6, 7];
    assert_eq!(bgra_to_rgb(&no_alpha, 2, 1), vec![3, 2, 1, 7, 6, 5]);
}

#[test]
fn bgra_to_rgb_short_frame_is_black() {
    // only the first of four pixels is present: the image comes out black
    let short = [10u8, 20, 30, 40, 50, 60];
    assert_eq!(bgra_to_rgb(&short, 2, 2), vec![0; 12]);
    assert_eq!(bgra_to_rgb(&[], 1, 1), vec![0, 0, 0]);
}

#[test]
fn gray_to_rgb_midtone() {
    let gray = vec![128u8];
    let rgb = gray_to_rgb(&gray, 1, 1);
    assert_eq!(pixel(&rgb, 1, 0, 0), [128, 128, 128]);
}

#[test]
fn gray_to_rgb_uses_width_times_height_values() {
    // extra grey values beyond width x height are ignored
    assert_eq!(gray_to_rgb(&[1, 2, 3], 2, 1), vec![1, 1, 1, 2, 2, 2]);
    // too few grey values give a black image
    assert_eq!(gray_to_rgb(&[9], 2, 2), vec![0; 12]);
}

#[test]
fn reconnect_policy_gives_up_after_ten() {
    let mut s = ReconnectState::new();
    for _ in 0..10 {
        assert!(s.begin_attempt());
        assert!(!s.finish_attempt(false));
    }
    assert!(!s.begin_attempt());
    assert_eq!(s.attempts, 10);
    assert!(!s.connected);
}

#[test]
fn reconnect_success_resets_attempts() {
    let mut s = ReconnectState::new();
    assert!(s.begin_attempt());
    assert!(s.begin_attempt());
    assert!(s.finish_attempt(true));
    assert_eq!(s.attempts, 0);
    assert!(s.connected);
}

#[test]
fn source_names() {
    assert_eq!(source_name("cam-0", "rtsp://10.0.0.2:554/live"), "RTSP cam-0");
    assert_eq!(source_name("cam-1", "/videos/front.mp4"), "front.mp4");
    assert_eq!(source_name("cam-2", "0"), "0");
    assert_eq!(source_name("cam-3", "/videos/.."), "/videos/..");
}

#[test]
fn file_name_falls_back_to_the_url() {
    assert_eq!(file_name_or_url("/v/front.mp4", Some("front.mp4".to_string())), "front.mp4");
    assert_eq!(file_name_or_url("/", None), "/");
}
