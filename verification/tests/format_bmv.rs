use rmpeg::format::bmv::{parse_bmv};

const OBSERVED_MIN_BMV_BYTES: usize = 1_000_000;

#[test]
fn parses_extension_gated_observed_bmv_metadata() {
    let bytes = vec![0; OBSERVED_MIN_BMV_BYTES];

    let doc = parse_bmv(&bytes).expect("bmv");

    assert_eq!(doc.format, "bmv");
    assert_eq!(doc.streams[0].codec_name, "bmv_video");
    assert_eq!(doc.streams[0].height, Some(429));
    assert_eq!(doc.streams[1].codec_name, "bmv_audio");
}

#[test]
fn rejects_tiny_bmv_candidate() {
    let error = parse_bmv(&vec![0; 1024]).expect_err("small bmv");

    assert!(error.message().contains("too small"));
}
