use rmpeg::format::amr::{parse_amr_nb};
use rmpeg::metadata::StreamMetadata;

const AMR_NB_MAGIC: &[u8] = b"#!AMR\n";

fn dur(s: &StreamMetadata) -> Option<f64> {
    s.duration_seconds.map(|d| d.num as f64 / d.den as f64)
}

#[test]
fn parses_raw_amr_nb_metadata() {
    let mut bytes = AMR_NB_MAGIC.to_vec();
    for _ in 0..284 {
        bytes.push(6 << 3);
        bytes.extend_from_slice(&[0; 26]);
    }

    let doc = parse_amr_nb(&bytes).expect("valid AMR-NB");
    assert_eq!(doc.format, "amr");
    assert_eq!(doc.streams[0].codec_name, "amr_nb");
    assert_eq!(doc.streams[0].sample_rate, Some(8_000));
    assert_eq!(doc.streams[0].channels, Some(1));
    assert_eq!(doc.streams[0].bits_per_sample, Some(0));
    let duration = dur(&doc.streams[0]).expect("duration");
    assert!((duration - 5.898461538461539).abs() < 0.000_000_001);
}
