use rmpeg::format::ivf::{parse_ivf};
use rmpeg::metadata::StreamMetadata;

fn dur(s: &StreamMetadata) -> Option<f64> {
    s.duration_seconds.map(|d| d.num as f64 / d.den as f64)
}

fn minimal_ivf(fourcc: &[u8; 4]) -> Vec<u8> {
    let mut bytes = Vec::new();
    bytes.extend_from_slice(b"DKIF");
    bytes.extend_from_slice(&0_u16.to_le_bytes());
    bytes.extend_from_slice(&32_u16.to_le_bytes());
    bytes.extend_from_slice(fourcc);
    bytes.extend_from_slice(&176_u16.to_le_bytes());
    bytes.extend_from_slice(&144_u16.to_le_bytes());
    bytes.extend_from_slice(&30_u32.to_le_bytes());
    bytes.extend_from_slice(&1_u32.to_le_bytes());
    bytes.extend_from_slice(&29_u32.to_le_bytes());
    bytes.extend_from_slice(&0_u32.to_le_bytes());
    bytes
}

#[test]
fn parses_vp8_header_metadata() {
    let doc = parse_ivf(&minimal_ivf(b"VP80")).expect("valid ivf");
    let stream = &doc.streams[0];
    assert_eq!(doc.format, "ivf");
    assert_eq!(stream.codec_name, "vp8");
    assert_eq!(stream.width, Some(176));
    assert_eq!(stream.height, Some(144));
    assert_eq!(dur(&stream), Some(29.0 / 30.0));
}

#[test]
fn rejects_unknown_codec() {
    let err = parse_ivf(&minimal_ivf(b"XXXX")).expect_err("unsupported codec");
    assert!(err.message().contains("not supported"));
}
