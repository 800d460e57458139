use rmpeg::format::alias_pix::{parse_alias_pix};

#[test]
fn parses_alias_pix_dimensions() {
    let mut bytes = vec![0; 8];
    bytes[0..2].copy_from_slice(&201_u16.to_be_bytes());
    bytes[2..4].copy_from_slice(&79_u16.to_be_bytes());

    let doc = parse_alias_pix(&bytes).expect("valid alias pix");
    assert_eq!(doc.format, "alias_pix");
    assert_eq!(doc.streams[0].width, Some(201));
    assert_eq!(doc.streams[0].height, Some(79));
}
