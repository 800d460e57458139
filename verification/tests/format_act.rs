use rmpeg::format::act::{parse_act};
use rmpeg::metadata::StreamMetadata;

fn dur(s: &StreamMetadata) -> Option<f64> {
    s.duration_seconds.map(|d| d.num as f64 / d.den as f64)
}

#[test]
fn parses_act_duration_from_declared_data_size() {
    let mut bytes = b"RIFF\0\0\0\0WAVEfmt ".to_vec();
    bytes.extend_from_slice(&16_u32.to_le_bytes());
    bytes.extend_from_slice(&1_u16.to_le_bytes());
    bytes.extend_from_slice(&1_u16.to_le_bytes());
    bytes.extend_from_slice(&8_000_u32.to_le_bytes());
    bytes.extend_from_slice(&16_000_u32.to_le_bytes());
    bytes.extend_from_slice(&2_u16.to_le_bytes());
    bytes.extend_from_slice(&16_u16.to_le_bytes());
    bytes.extend_from_slice(b"data");
    bytes.extend_from_slice(&526_320_u32.to_le_bytes());

    let doc = parse_act(&bytes).expect("act");

    assert_eq!(doc.format, "act");
    assert_eq!(doc.streams[0].codec_name, "g729");
    assert_eq!(dur(&doc.streams[0]), Some(65.79));
}
