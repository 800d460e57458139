use rmpeg::format::ast::{parse_ast};
use rmpeg::metadata::StreamMetadata;

fn dur(s: &StreamMetadata) -> Option<f64> {
    s.duration_seconds.map(|d| d.num as f64 / d.den as f64)
}

#[test]
fn parses_ast_duration_from_sample_count() {
    let mut bytes = b"STRM".to_vec();
    bytes.resize(24, 0);
    bytes[12..14].copy_from_slice(&2_u16.to_be_bytes());
    bytes[16..20].copy_from_slice(&44_100_u32.to_be_bytes());
    bytes[20..24].copy_from_slice(&2_656_672_u32.to_be_bytes());

    let doc = parse_ast(&bytes).expect("ast");

    assert_eq!(doc.format, "ast");
    assert_eq!(doc.streams[0].codec_name, "adpcm_afc");
    assert_eq!(doc.streams[0].channels, Some(2));
    assert_eq!(
        dur(&doc.streams[0]),
        Some(2_656_672.0 / 44_100.0)
    );
}
