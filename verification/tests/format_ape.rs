use rmpeg::format::ape::{parse_ape};
use rmpeg::metadata::StreamMetadata;

fn dur(s: &StreamMetadata) -> Option<f64> {
    s.duration_seconds.map(|d| d.num as f64 / d.den as f64)
}

#[test]
fn parses_old_ape_header() {
    let mut bytes = Vec::new();
    bytes.extend_from_slice(b"MAC ");
    bytes.extend_from_slice(&3_800_u16.to_le_bytes());
    bytes.extend_from_slice(&2_000_u16.to_le_bytes());
    bytes.extend_from_slice(&6_u16.to_le_bytes());
    bytes.extend_from_slice(&2_u16.to_le_bytes());
    bytes.extend_from_slice(&44_100_u32.to_le_bytes());
    bytes.extend_from_slice(&44_u32.to_le_bytes());
    bytes.extend_from_slice(&0_u32.to_le_bytes());
    bytes.extend_from_slice(&290_u32.to_le_bytes());
    bytes.extend_from_slice(&3_744_u32.to_le_bytes());

    let doc = parse_ape(&bytes).expect("valid old APE header");
    assert_eq!(doc.streams[0].sample_rate, Some(44_100));
    assert_eq!(doc.streams[0].channels, Some(2));
    assert_eq!(doc.streams[0].bits_per_sample, Some(16));
    assert_eq!(dur(&doc.streams[0]), Some(60.48));
}

#[test]
fn parses_new_ape_header() {
    let mut bytes = vec![0_u8; 52];
    bytes[0..4].copy_from_slice(b"MAC ");
    bytes[4..6].copy_from_slice(&3_990_u16.to_le_bytes());
    bytes[8..12].copy_from_slice(&52_u32.to_le_bytes());
    bytes[12..16].copy_from_slice(&24_u32.to_le_bytes());
    bytes.extend_from_slice(&3_000_u16.to_le_bytes());
    bytes.extend_from_slice(&0_u16.to_le_bytes());
    bytes.extend_from_slice(&73_728_u32.to_le_bytes());
    bytes.extend_from_slice(&62_805_u32.to_le_bytes());
    bytes.extend_from_slice(&76_u32.to_le_bytes());
    bytes.extend_from_slice(&24_u16.to_le_bytes());
    bytes.extend_from_slice(&2_u16.to_le_bytes());
    bytes.extend_from_slice(&44_100_u32.to_le_bytes());

    let doc = parse_ape(&bytes).expect("valid new APE header");
    assert_eq!(doc.streams[0].sample_rate, Some(44_100));
    assert_eq!(doc.streams[0].channels, Some(2));
    assert_eq!(doc.streams[0].bits_per_sample, Some(24));
    assert_eq!(dur(&doc.streams[0]), Some(126.81190476190476));
}
