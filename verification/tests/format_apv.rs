use rmpeg::format::apv::{parse_apv};

#[test]
fn parses_observed_apv_dimensions() {
    let mut bytes = vec![0; 0x1b];
    bytes[4..8].copy_from_slice(b"aPv1");
    bytes[0x14..0x16].copy_from_slice(&320_u16.to_be_bytes());
    bytes[0x17..0x19].copy_from_slice(&180_u16.to_be_bytes());

    let doc = parse_apv(&bytes).expect("apv");

    assert_eq!(doc.format, "apv");
    assert_eq!(doc.streams[0].codec_name, "apv");
    assert_eq!(doc.streams[0].width, Some(320));
    assert_eq!(doc.streams[0].height, Some(180));
}
