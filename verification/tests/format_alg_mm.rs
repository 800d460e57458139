use rmpeg::format::alg_mm::{parse_alg_mm};

#[test]
fn parses_extension_gated_alg_mm_dimensions() {
    let mut bytes = vec![0; 16];
    bytes[2] = 0x18;
    bytes[13] = 1;
    bytes[14] = 160;

    let doc = parse_alg_mm(&bytes).expect("mm");

    assert_eq!(doc.format, "mm");
    assert_eq!(doc.streams[0].codec_name, "mmvideo");
    assert_eq!(doc.streams[0].width, Some(256));
    assert_eq!(doc.streams[1].codec_name, "pcm_u8");
}
