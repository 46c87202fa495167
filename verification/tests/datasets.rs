use open_eyes::datasets::{
    flo_payload, is_frame_file_name, is_frame_image, parse_temporal_annotations, white_space,
};

#[test]
fn annotations_parse_one_per_line() {
    let content = "Abuse028_x264 165 240 Abuse\nRoadAccidents001 10 95 Road Accident\n";
    let a = parse_temporal_annotations(content);
    assert_eq!(a.len(), 2);
    assert_eq!(a[0].video_name, "Abuse028_x264");
    assert_eq!(a[0].start_frame, 165);
    assert_eq!(a[0].end_frame, 240);
    assert_eq!(a[0].class, "Abuse");
    assert_eq!(a[1].video_name, "RoadAccidents001");
    assert_eq!(a[1].start_frame, 10);
    assert_eq!(a[1].end_frame, 95);
    assert_eq!(a[1].class, "Road Accident");
}

#[test]
fn annotations_skip_short_and_malformed_lines() {
    let content = "header line\nv1 1 2\nv2 x 3 Fight\nv3 4 -5 Fight\nv4 7 8 Stealing";
    let a = parse_temporal_annotations(content);
    assert_eq!(a.len(), 1);
    assert_eq!(a[0].video_name, "v4");
    assert_eq!((a[0].start_frame, a[0].end_frame), (7, 8));
    assert_eq!(a[0].class, "Stealing");
}

#[test]
fn annotations_collapse_whitespace_in_class() {
    let content = "  clip\t12   34  Shop   lifting \r\n\n";
    let a = parse_temporal_annotations(content);
    assert_eq!(a.len(), 1);
    assert_eq!(a[0].video_name, "clip");
    assert_eq!(a[0].start_frame, 12);
    assert_eq!(a[0].end_frame, 34);
    assert_eq!(a[0].class, "Shop lifting");
}

#[test]
fn annotations_frame_numbers_follow_u64_parsing() {
    let a = parse_temporal_annotations("a +7 0010 X\nb 18446744073709551615 1 Y\nc 18446744073709551616 1 Z\nd + 1 W");
    assert_eq!(a.len(), 2);
    assert_eq!((a[0].start_frame, a[0].end_frame), (7, 10));
    assert_eq!(a[1].start_frame, u64::MAX);
    assert!(parse_temporal_annotations("").is_empty());
}

#[test]
fn unicode_whitespace_separates_words() {
    assert!(white_space(' '));
    assert!(white_space('\t'));
    assert!(white_space('\u{3000}'));
    assert!(!white_space('a'));
    assert!(!white_space('\u{200b}'));
    let a = parse_temporal_annotations("v\u{a0}1\u{2003}2 Burglary");
    assert_eq!(a.len(), 1);
    assert_eq!(a[0].class, "Burglary");
}

fn flo_bytes(magic: f32, width: i32, height: i32, vectors: &[(f32, f32)]) -> Vec<u8> {
    let mut data = Vec::new();
    data.extend_from_slice(&magic.to_le_bytes());
    data.extend_from_slice(&width.to_le_bytes());
    data.extend_from_slice(&height.to_le_bytes());
    for (dx, dy) in vectors {
        data.extend_from_slice(&dx.to_le_bytes());
        data.extend_from_slice(&dy.to_le_bytes());
    }
    data
}

#[test]
fn flo_payload_reads_dimensions_and_vectors() {
    let data = flo_bytes(202021.25, 1, 1, &[(3.5, -1.2)]);
    let (vectors, w, h) = flo_payload(&data).unwrap();
    assert_eq!((w, h), (1, 1));
    assert_eq!(vectors.len(), 1);
    assert!((f32::from_bits(vectors[0].0) - 3.5).abs() < 0.001);
    assert!((f32::from_bits(vectors[0].1) - (-1.2)).abs() < 0.001);

    let data = flo_bytes(202021.25, 2, 1, &[(1.0, 2.0), (3.0, 4.0)]);
    let (vectors, w, h) = flo_payload(&data).unwrap();
    assert_eq!((w, h), (2, 1));
    assert_eq!(vectors[1], (3.0f32.to_bits(), 4.0f32.to_bits()));
}

#[test]
fn flo_payload_rejects_short_files() {
    assert!(flo_payload(&[0u8; 11]).is_none());
    // header announces two vectors, only one present
    let data = flo_bytes(202021.25, 2, 1, &[(1.0, 2.0)]);
    assert!(flo_payload(&data).is_none());
    // an empty image needs no vectors
    let data = flo_bytes(202021.25, 0, 5, &[]);
    let (vectors, w, h) = flo_payload(&data).unwrap();
    assert!(vectors.is_empty());
    assert_eq!((w, h), (0, 5));
}

#[test]
fn frame_images_are_recognised_by_extension() {
    assert!(is_frame_image("/data/input/in000001.jpg"));
    assert!(is_frame_image("frame_0002.jpeg"));
    assert!(is_frame_image("gt/gt000001.png"));
    assert!(is_frame_image("a.b.bmp"));
    assert!(!is_frame_image("notes.txt"));
    assert!(!is_frame_image("frame.JPG"));
    assert!(!is_frame_image(".png"));
    assert!(is_frame_image(".hidden.png"));
    assert!(!is_frame_image("dir/png"));
    assert!(!is_frame_image("video/.."));
    assert!(!is_frame_image(""));
}

#[test]
fn joined_files_hold_both_files_annotations() {
    let a = "v1 1 2 Fight\nnoise";
    let b = "v2 3 4 Arson\nv3 5 6 Road Accident";
    let joined = format!("{}\n{}", a, b);
    let whole = parse_temporal_annotations(&joined);
    let mut parts = parse_temporal_annotations(a);
    parts.extend(parse_temporal_annotations(b));
    assert_eq!(whole.len(), parts.len());
    for (x, y) in whole.iter().zip(parts.iter()) {
        assert_eq!(x.video_name, y.video_name);
        assert_eq!((x.start_frame, x.end_frame), (y.start_frame, y.end_frame));
        assert_eq!(x.class, y.class);
    }
    assert_eq!(whole.len(), 3);
}

#[test]
fn frame_file_names_by_extension() {
    assert!(is_frame_file_name("in000001.jpg"));
    assert!(is_frame_file_name("x.y.png"));
    assert!(!is_frame_file_name("png"));
    assert!(!is_frame_file_name(".bmp"));
    assert!(!is_frame_file_name("clip.mp4"));
    assert!(is_frame_file_name("a.jpeg"));
}

#[test]
fn flo_file_reads_back_as_written() {
    let words = [(1u32, 2u32), (0xdead_beef, 0), (u32::MAX, 7), (256, 65536)];
    let mut data = Vec::new();
    data.extend_from_slice(&202021.25f32.to_le_bytes());
    data.extend_from_slice(&2u32.to_le_bytes());
    data.extend_from_slice(&2u32.to_le_bytes());
    for (dx, dy) in words.iter() {
        data.extend_from_slice(&dx.to_le_bytes());
        data.extend_from_slice(&dy.to_le_bytes());
    }
    assert_eq!(data.len(), 12 + 8 * 4);
    let (vectors, w, h) = flo_payload(&data).unwrap();
    assert_eq!((w, h), (2, 2));
    assert_eq!(vectors, words.to_vec());
}

#[test]
fn written_annotation_lines_read_back() {
    for (name, start, end, class) in [
        ("Burglary018_x264", 0u64, 1u64, "Burglary"),
        ("v", 42, u64::MAX, "Road Accident Night"),
        ("cam-7", 1234567, 7654321, "Shop lifting"),
    ] {
        let line = format!("{} {} {} {}", name, start, end, class);
        let a = parse_temporal_annotations(&line);
        assert_eq!(a.len(), 1);
        assert_eq!(a[0].video_name, name);
        assert_eq!((a[0].start_frame, a[0].end_frame), (start, end));
        assert_eq!(a[0].class, class);
    }
}
