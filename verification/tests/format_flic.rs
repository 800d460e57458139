use rmpeg::format::flic::{parse_flic};

#[test]
fn parses_flic_dimensions() {
    let mut bytes = vec![0; 128];
    bytes[0..4].copy_from_slice(&128_u32.to_le_bytes());
    bytes[4..6].copy_from_slice(&0xaf12_u16.to_le_bytes());
    bytes[8..10].copy_from_slice(&320_u16.to_le_bytes());
    bytes[10..12].copy_from_slice(&200_u16.to_le_bytes());

    let doc = parse_flic(&bytes).expect("valid flic");
    assert_eq!(doc.streams[0].width, Some(320));
    assert_eq!(doc.streams[0].height, Some(200));
}
