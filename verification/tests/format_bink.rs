use rmpeg::format::bink::{parse_bink};
use rmpeg::metadata::StreamMetadata;

fn dur(s: &StreamMetadata) -> Option<f64> {
    s.duration_seconds.map(|d| d.num as f64 / d.den as f64)
}

#[test]
fn parses_observed_bink_video_and_audio_header() {
    let mut bytes = vec![0; 64];
    bytes[0..4].copy_from_slice(b"BIKi");
    bytes[8..12].copy_from_slice(&31_u32.to_le_bytes());
    bytes[20..24].copy_from_slice(&640_u32.to_le_bytes());
    bytes[24..28].copy_from_slice(&480_u32.to_le_bytes());
    bytes[28..32].copy_from_slice(&30_u32.to_le_bytes());
    bytes[32..36].copy_from_slice(&1_u32.to_le_bytes());
    bytes[40..44].copy_from_slice(&1_u32.to_le_bytes());
    bytes[48..50].copy_from_slice(&44100_u16.to_le_bytes());
    bytes[51] = 0x70;

    let doc = parse_bink(&bytes).expect("bink");

    assert_eq!(doc.format, "bink");
    assert_eq!(doc.streams.len(), 2);
    assert_eq!(doc.streams[0].codec_name, "binkvideo");
    assert_eq!(dur(&doc.streams[0]), Some(31.0 / 30.0));
    assert_eq!(doc.streams[1].codec_name, "binkaudio_dct");
    assert_eq!(doc.streams[1].sample_rate, Some(44100));
    assert_eq!(doc.streams[1].channels, Some(2));
}

#[test]
fn parses_observed_bink_rdft_flag() {
    let mut bytes = vec![0; 64];
    bytes[0..4].copy_from_slice(b"BIKi");
    bytes[8..12].copy_from_slice(&280_u32.to_le_bytes());
    bytes[20..24].copy_from_slice(&384_u32.to_le_bytes());
    bytes[24..28].copy_from_slice(&512_u32.to_le_bytes());
    bytes[28..32].copy_from_slice(&25_u32.to_le_bytes());
    bytes[32..36].copy_from_slice(&1_u32.to_le_bytes());
    bytes[40..44].copy_from_slice(&1_u32.to_le_bytes());
    bytes[48..50].copy_from_slice(&44100_u16.to_le_bytes());
    bytes[51] = 0xe0;

    let doc = parse_bink(&bytes).expect("bink");

    assert_eq!(doc.streams[1].codec_name, "binkaudio_rdft");
    assert_eq!(doc.streams[1].channels, Some(2));
}
