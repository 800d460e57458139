use rmpeg::format::exr::{parse_exr};
use rmpeg::metadata::StreamMetadata;

fn dur(s: &StreamMetadata) -> Option<f64> {
    s.duration_seconds.map(|d| d.num as f64 / d.den as f64)
}

fn minimal_exr(min_x: i32, min_y: i32, max_x: i32, max_y: i32) -> Vec<u8> {
    let mut bytes = Vec::new();
    bytes.extend_from_slice(b"\x76\x2f\x31\x01");
    bytes.extend_from_slice(&[2, 0, 0, 0]);
    append_box2i(&mut bytes, b"dataWindow", min_x, min_y, max_x, max_y);
    bytes.push(0);
    bytes
}

fn append_box2i(
    bytes: &mut Vec<u8>,
    name: &[u8],
    min_x: i32,
    min_y: i32,
    max_x: i32,
    max_y: i32,
) {
    bytes.extend_from_slice(name);
    bytes.push(0);
    bytes.extend_from_slice(b"box2i\0");
    bytes.extend_from_slice(&16_u32.to_le_bytes());
    bytes.extend_from_slice(&min_x.to_le_bytes());
    bytes.extend_from_slice(&min_y.to_le_bytes());
    bytes.extend_from_slice(&max_x.to_le_bytes());
    bytes.extend_from_slice(&max_y.to_le_bytes());
}

#[test]
fn parses_exr_data_window_dimensions() {
    let doc = parse_exr(&minimal_exr(0, 0, 47, 31)).expect("valid exr");
    let stream = &doc.streams[0];
    assert_eq!(doc.format, "exr_pipe");
    assert_eq!(stream.codec_name, "exr");
    assert_eq!(stream.width, Some(48));
    assert_eq!(stream.height, Some(32));
    assert_eq!(dur(&stream), Some(0.0));
}

#[test]
fn handles_nonzero_data_window_origin() {
    let doc = parse_exr(&minimal_exr(-4, 10, 5, 19)).expect("valid exr");
    assert_eq!(doc.streams[0].width, Some(10));
    assert_eq!(doc.streams[0].height, Some(10));
}

#[test]
fn prefers_display_window_dimensions() {
    let mut bytes = Vec::new();
    bytes.extend_from_slice(b"\x76\x2f\x31\x01");
    bytes.extend_from_slice(&[2, 0, 0, 0]);
    append_box2i(&mut bytes, b"dataWindow", 0, 0, 97, 97);
    append_box2i(&mut bytes, b"displayWindow", 0, 0, 49, 49);
    bytes.push(0);

    let doc = parse_exr(&bytes).expect("valid exr");
    assert_eq!(doc.streams[0].width, Some(50));
    assert_eq!(doc.streams[0].height, Some(50));
}

#[test]
fn rejects_inverted_data_window() {
    let err = parse_exr(&minimal_exr(10, 0, 9, 1)).expect_err("inverted window");
    assert!(err.message().contains("inverted"));
}
