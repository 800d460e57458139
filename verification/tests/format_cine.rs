use rmpeg::format::cine::{parse_cine};
use rmpeg::metadata::StreamMetadata;

fn dur(s: &StreamMetadata) -> Option<f64> {
    s.duration_seconds.map(|d| d.num as f64 / d.den as f64)
}

#[test]
fn parses_observed_cine_dimensions() {
    let mut bytes = b"CI,".to_vec();
    bytes.resize(0x38, 0);
    bytes[0x30..0x34].copy_from_slice(&1280_u32.to_le_bytes());
    bytes[0x34..0x38].copy_from_slice(&800_u32.to_le_bytes());

    let doc = parse_cine(&bytes).expect("cine");

    assert_eq!(doc.format, "cine");
    assert_eq!(doc.streams[0].codec_name, "rawvideo");
    assert_eq!(doc.streams[0].width, Some(1280));
    assert_eq!(dur(&doc.streams[0]), Some(1.0 / 31.0));
}
