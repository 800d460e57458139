use rmpeg::format::dfa::{parse_dfa};
use rmpeg::metadata::StreamMetadata;

fn dur(s: &StreamMetadata) -> Option<f64> {
    s.duration_seconds.map(|d| d.num as f64 / d.den as f64)
}

#[test]
fn parses_observed_chronomaster_header_metadata() {
    let mut bytes = vec![0; 64];
    bytes[0..4].copy_from_slice(b"DFIA");
    bytes[6..8].copy_from_slice(&160_u16.to_le_bytes());
    bytes[8..10].copy_from_slice(&640_u16.to_le_bytes());
    bytes[10..12].copy_from_slice(&480_u16.to_le_bytes());
    bytes[12..14].copy_from_slice(&128_u16.to_le_bytes());

    let doc = parse_dfa(&bytes).expect("dfa");

    assert_eq!(doc.format, "dfa");
    assert_eq!(doc.streams[0].codec_name, "dfa");
    assert_eq!(doc.streams[0].width, Some(640));
    assert_eq!(doc.streams[0].height, Some(480));
    assert_eq!(dur(&doc.streams[0]), Some(20.48));
}

#[test]
fn rejects_zero_dimensions() {
    let mut bytes = vec![0; 14];
    bytes[0..4].copy_from_slice(b"DFIA");
    bytes[6..8].copy_from_slice(&1_u16.to_le_bytes());
    bytes[12..14].copy_from_slice(&100_u16.to_le_bytes());

    assert!(parse_dfa(&bytes).is_err());
}
