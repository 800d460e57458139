use rmpeg::format::apm::{parse_apm};
use rmpeg::metadata::StreamMetadata;

fn dur(s: &StreamMetadata) -> Option<f64> {
    s.duration_seconds.map(|d| d.num as f64 / d.den as f64)
}

#[test]
fn parses_apm_duration_from_sample_count() {
    let mut bytes = vec![0; 32];
    bytes[2] = 1;
    bytes[4..8].copy_from_slice(&11_025_u32.to_le_bytes());
    bytes[14] = 4;
    bytes[20..24].copy_from_slice(b"vs12");
    bytes[28..32].copy_from_slice(&33_102_u32.to_le_bytes());

    let doc = parse_apm(&bytes).expect("valid apm");
    assert_eq!(doc.streams[0].codec_name, "adpcm_ima_apm");
    let duration = dur(&doc.streams[0]).unwrap();
    assert!((duration - 6.004897959183674).abs() < 0.000001);
}
