use rmpeg::format::fourxm::{parse_fourxm};

#[test]
fn parses_observed_4xm_dimensions_and_streams() {
    let mut bytes = Vec::new();
    bytes.extend_from_slice(b"RIFF");
    bytes.extend_from_slice(&0_u32.to_le_bytes());
    bytes.extend_from_slice(b"4XMV");
    bytes.resize(220, 0);
    bytes.extend_from_slice(b"vtrkD\0\0\0");
    bytes.resize(260, 0);
    bytes.extend_from_slice(&240_u32.to_le_bytes());
    bytes.extend_from_slice(&112_u32.to_le_bytes());
    bytes.extend_from_slice(&240_u32.to_le_bytes());
    bytes.extend_from_slice(&112_u32.to_le_bytes());
    bytes.resize(211_000, 0);

    let doc = parse_fourxm(&bytes).expect("4xm");

    assert_eq!(doc.format, "4xm");
    assert_eq!(doc.streams[0].codec_name, "4xm");
    assert_eq!(doc.streams[0].width, Some(240));
    assert_eq!(doc.streams[1].sample_rate, Some(7_884));
}
