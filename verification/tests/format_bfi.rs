use rmpeg::format::bfi::{parse_bfi};
use rmpeg::metadata::StreamMetadata;

fn dur(s: &StreamMetadata) -> Option<f64> {
    s.duration_seconds.map(|d| d.num as f64 / d.den as f64)
}

#[test]
fn parses_observed_bfi_header() {
    let mut bytes = vec![0; 0x34];
    bytes[0..4].copy_from_slice(b"BF&I");
    bytes[0x0c..0x10].copy_from_slice(&57_u32.to_le_bytes());
    bytes[0x1c..0x20].copy_from_slice(&9_u32.to_le_bytes());
    bytes[0x2c..0x30].copy_from_slice(&320_u32.to_le_bytes());
    bytes[0x30..0x34].copy_from_slice(&140_u32.to_le_bytes());

    let doc = parse_bfi(&bytes).expect("bfi");

    assert_eq!(doc.streams[0].codec_name, "bfi");
    assert_eq!(dur(&doc.streams[0]), Some(57.0 / 9.0));
    assert_eq!(doc.streams[1].codec_name, "pcm_u8");
}
