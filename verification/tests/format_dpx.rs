use rmpeg::format::dpx::{parse_dpx};

#[test]
fn parses_big_endian_dpx_dimensions() {
    let mut bytes = vec![0; 780];
    bytes[0..4].copy_from_slice(b"SDPX");
    bytes[772..776].copy_from_slice(&768_u32.to_be_bytes());
    bytes[776..780].copy_from_slice(&512_u32.to_be_bytes());
    let doc = parse_dpx(&bytes).expect("valid dpx");
    assert_eq!(doc.streams[0].width, Some(768));
    assert_eq!(doc.streams[0].height, Some(512));
}
