use rmpeg::format::alp::{parse_alp};
use rmpeg::metadata::StreamMetadata;

fn dur(s: &StreamMetadata) -> Option<f64> {
    s.duration_seconds.map(|d| d.num as f64 / d.den as f64)
}

#[test]
fn parses_alp_adpcm_header() {
    let mut bytes = b"ALP ".to_vec();
    bytes.extend_from_slice(&12_u32.to_le_bytes());
    bytes.extend_from_slice(b"ADPCM\0");
    bytes.push(0);
    bytes.push(1);
    bytes.extend_from_slice(&11_025_u32.to_le_bytes());
    bytes.extend_from_slice(&[0; 11025]);

    let doc = parse_alp(&bytes).expect("valid alp");
    assert_eq!(doc.streams[0].codec_name, "adpcm_ima_alp");
    assert_eq!(dur(&doc.streams[0]), Some(2.0));
}
