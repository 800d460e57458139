use rmpeg::format::anm::{parse_anm};
use rmpeg::metadata::StreamMetadata;

fn dur(s: &StreamMetadata) -> Option<f64> {
    s.duration_seconds.map(|d| d.num as f64 / d.den as f64)
}

#[test]
fn parses_lpf_anim_dimensions() {
    let mut bytes = vec![0; 0x18];
    bytes[0..4].copy_from_slice(b"LPF ");
    bytes[0x10..0x14].copy_from_slice(b"ANIM");
    bytes[0x14..0x16].copy_from_slice(&320_u16.to_le_bytes());
    bytes[0x16..0x18].copy_from_slice(&200_u16.to_le_bytes());

    let doc = parse_anm(&bytes).expect("anm");

    assert_eq!(doc.format, "anm");
    assert_eq!(doc.streams[0].codec_name, "anm");
    assert_eq!(doc.streams[0].width, Some(320));
    assert_eq!(dur(&doc.streams[0]), Some(0.0));
}
