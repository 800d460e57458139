use rmpeg::format::gdv::{parse_gdv};
use rmpeg::metadata::StreamMetadata;

fn dur(s: &StreamMetadata) -> Option<f64> {
    s.duration_seconds.map(|d| d.num as f64 / d.den as f64)
}

#[test]
fn parses_video_only_gdv_header() {
    let mut bytes = vec![0; 24];
    bytes[0..4].copy_from_slice(&[0x94, 0x19, 0x11, 0x29]);
    bytes[6..8].copy_from_slice(&21_u16.to_le_bytes());
    bytes[8..10].copy_from_slice(&12_u16.to_le_bytes());
    bytes[20..22].copy_from_slice(&170_u16.to_le_bytes());
    bytes[22..24].copy_from_slice(&140_u16.to_le_bytes());

    let doc = parse_gdv(&bytes).expect("gdv");

    assert_eq!(doc.format, "gdv");
    assert_eq!(doc.streams.len(), 1);
    assert_eq!(dur(&doc.streams[0]), Some(1.75));
}

#[test]
fn parses_gdv_audio_metadata_when_present() {
    let mut bytes = vec![0; 24];
    bytes[0..4].copy_from_slice(&[0x94, 0x19, 0x11, 0x29]);
    bytes[6..8].copy_from_slice(&85_u16.to_le_bytes());
    bytes[8..10].copy_from_slice(&12_u16.to_le_bytes());
    bytes[10..12].copy_from_slice(&15_u16.to_le_bytes());
    bytes[12..14].copy_from_slice(&21_168_u16.to_le_bytes());
    bytes[19] = 2;
    bytes[20..22].copy_from_slice(&320_u16.to_le_bytes());
    bytes[22..24].copy_from_slice(&280_u16.to_le_bytes());

    let doc = parse_gdv(&bytes).expect("gdv");

    assert_eq!(doc.streams.len(), 2);
    assert_eq!(doc.streams[1].codec_name, "gremlin_dpcm");
    assert_eq!(doc.streams[1].sample_rate, Some(21_168));
    assert_eq!(doc.streams[1].channels, Some(2));
}
