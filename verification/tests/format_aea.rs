use rmpeg::format::aea::{parse_aea};
use rmpeg::metadata::StreamMetadata;

const AEA_HEADER_SIZE: usize = 2048;

fn dur(s: &StreamMetadata) -> Option<f64> {
    s.duration_seconds.map(|d| d.num as f64 / d.den as f64)
}

#[test]
fn parses_aea_duration_from_payload_size() {
    let mut bytes = vec![0; AEA_HEADER_SIZE + 36_500];
    bytes[0..4].copy_from_slice(&[0x00, 0x08, 0x00, 0x00]);
    let doc = parse_aea(&bytes).expect("valid aea");
    assert_eq!(doc.format, "aea");
    assert_eq!(doc.streams[0].codec_name, "atrac1");
    assert_eq!(dur(&doc.streams[0]), Some(1.0));
}
