use rmpeg::format::brender_pix::{parse_brender_pix};

#[test]
fn parses_observed_brender_pix_header() {
    let mut bytes = vec![0; 64];
    bytes[3] = 0x12;
    bytes[7] = 8;
    bytes[11] = 2;
    bytes[15] = 2;
    bytes[28..30].copy_from_slice(&128_u16.to_le_bytes());
    bytes[30..32].copy_from_slice(&96_u16.to_le_bytes());

    let doc = parse_brender_pix(&bytes).expect("brender pix");

    assert_eq!(doc.format, "brender_pix");
    assert_eq!(doc.streams[0].codec_name, "brender_pix");
    assert_eq!(doc.streams[0].width, Some(128));
    assert_eq!(doc.streams[0].height, Some(96));
}

#[test]
fn parses_observed_square_brender_pix_header() {
    let mut bytes = vec![0; 64];
    bytes[3] = 0x12;
    bytes[7] = 8;
    bytes[11] = 2;
    bytes[15] = 2;
    bytes[26..28].copy_from_slice(&256_u16.to_le_bytes());
    bytes[28..30].copy_from_slice(&256_u16.to_le_bytes());

    let doc = parse_brender_pix(&bytes).expect("brender pix");

    assert_eq!(doc.streams[0].width, Some(256));
    assert_eq!(doc.streams[0].height, Some(256));
}
