use rmpeg::format::dxa::{parse_dxa};
use rmpeg::metadata::StreamMetadata;

fn dur(s: &StreamMetadata) -> Option<f64> {
    s.duration_seconds.map(|d| d.num as f64 / d.den as f64)
}

#[test]
fn parses_half_height_dxa_header() {
    let mut bytes = b"DEXA".to_vec();
    bytes.extend_from_slice(&[
        0x40, 0x02, 0x7d, 0xff, 0xff, 0xdf, 0x73, 0x02, 0x80, 0x01, 0x90,
    ]);

    let doc = parse_dxa(&bytes).expect("dxa");

    assert_eq!(doc.format, "dxa");
    assert_eq!(doc.streams[0].codec_name, "dxa");
    assert_eq!(doc.streams[0].width, Some(640));
    assert_eq!(doc.streams[0].height, Some(200));
    assert_eq!(
        dur(&doc.streams[0]),
        Some(637.0 * 8_333.0 / 100_000.0)
    );
}

#[test]
fn parses_embedded_adpcm_ms_audio() {
    let mut bytes = b"DEXA".to_vec();
    bytes.extend_from_slice(&[
        0x00, 0x01, 0xbc, 0xff, 0xff, 0xd8, 0xf0, 0x02, 0x80, 0x01, 0xe0,
    ]);
    bytes.extend_from_slice(b"WAVE\0\0\0\0RIFF\0\0\0\0WAVEfmt ");
    bytes.extend_from_slice(&16_u32.to_le_bytes());
    bytes.extend_from_slice(&0x0002_u16.to_le_bytes());
    bytes.extend_from_slice(&1_u16.to_le_bytes());
    bytes.extend_from_slice(&11_025_u32.to_le_bytes());
    bytes.extend_from_slice(&0_u32.to_le_bytes());
    bytes.extend_from_slice(&0_u16.to_le_bytes());
    bytes.extend_from_slice(&4_u16.to_le_bytes());

    let doc = parse_dxa(&bytes).expect("dxa");

    assert_eq!(doc.streams.len(), 2);
    assert_eq!(doc.streams[1].codec_name, "adpcm_ms");
    assert_eq!(doc.streams[1].sample_rate, Some(11_025));
    assert_eq!(dur(&doc.streams[1]), Some(44.4));
}
