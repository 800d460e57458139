use rmpeg::format::dnxhd::{parse_raw_dnxhd};

#[test]
fn parses_observed_dnxhr_frame_dimensions() {
    let mut bytes = vec![0; 128];
    bytes[4..8].copy_from_slice(&[0x03, 0x01, 0x80, 0xa0]);
    bytes[24..26].copy_from_slice(&2160_u16.to_be_bytes());
    bytes[26..28].copy_from_slice(&3840_u16.to_be_bytes());

    let doc = parse_raw_dnxhd(&bytes).unwrap();

    assert_eq!(doc.format, "dnxhd");
    assert_eq!(doc.streams[0].codec_name, "dnxhd");
    assert_eq!(doc.streams[0].width, Some(3840));
    assert_eq!(doc.streams[0].height, Some(2160));
}
