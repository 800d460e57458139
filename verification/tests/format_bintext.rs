use rmpeg::format::bintext::{parse_bintext};
use rmpeg::metadata::StreamMetadata;

const OBSERVED_BIN_TEXT_BYTES: usize = 12_800;

fn dur(s: &StreamMetadata) -> Option<f64> {
    s.duration_seconds.map(|d| d.num as f64 / d.den as f64)
}

#[test]
fn parses_observed_binary_text_dimensions() {
    let bytes = vec![0; OBSERVED_BIN_TEXT_BYTES];

    let doc = parse_bintext(&bytes).expect("bintext");

    assert_eq!(doc.format, "bin");
    assert_eq!(doc.streams[0].codec_name, "bintext");
    assert_eq!(doc.streams[0].width, Some(1280));
    assert_eq!(doc.streams[0].height, Some(640));
    assert_eq!(dur(&doc.streams[0]), None);
}
