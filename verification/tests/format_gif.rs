use rmpeg::format::gif::{color_table_len, has_global_color_table, parse_gif};
use rmpeg::metadata::StreamMetadata;

fn dur(s: &StreamMetadata) -> Option<f64> {
    s.duration_seconds.map(|d| d.num as f64 / d.den as f64)
}

fn gif_header(width: u16, height: u16, packed: u8) -> Vec<u8> {
    let mut bytes = Vec::new();
    bytes.extend_from_slice(b"GIF89a");
    bytes.extend_from_slice(&width.to_le_bytes());
    bytes.extend_from_slice(&height.to_le_bytes());
    bytes.extend_from_slice(&[packed, 0, 0]);
    if has_global_color_table(packed) {
        bytes.extend(std::iter::repeat_n(0, color_table_len(packed).unwrap()));
    }
    bytes
}

fn image_block() -> Vec<u8> {
    let mut bytes = Vec::new();
    bytes.push(0x2C);
    bytes.extend_from_slice(&[0, 0, 0, 0, 1, 0, 1, 0, 0]);
    bytes.push(2);
    bytes.push(1);
    bytes.push(0);
    bytes.push(0);
    bytes
}

fn graphic_control(delay: u16) -> Vec<u8> {
    let mut bytes = vec![0x21, 0xF9, 4, 0];
    bytes.extend_from_slice(&delay.to_le_bytes());
    bytes.extend_from_slice(&[0, 0]);
    bytes
}

#[test]
fn parses_gif_dimensions_and_delay_duration() {
    let mut bytes = gif_header(32, 12, 0x80);
    bytes.extend_from_slice(&graphic_control(25));
    bytes.extend_from_slice(&image_block());
    bytes.push(0x3B);

    let doc = parse_gif(&bytes).expect("valid gif");
    let stream = &doc.streams[0];
    assert_eq!(doc.format, "gif");
    assert_eq!(stream.codec_name, "gif");
    assert_eq!(stream.width, Some(32));
    assert_eq!(stream.height, Some(12));
    assert_eq!(dur(&stream), Some(0.25));
}

#[test]
fn uses_ten_fps_fallback_when_all_delays_are_zero() {
    let mut bytes = gif_header(1, 1, 0);
    bytes.extend_from_slice(&image_block());
    bytes.extend_from_slice(&image_block());
    bytes.push(0x3B);

    let doc = parse_gif(&bytes).expect("valid gif");
    assert_eq!(dur(&doc.streams[0]), Some(0.2));
}
