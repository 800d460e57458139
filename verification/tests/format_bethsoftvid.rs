use rmpeg::format::bethsoftvid::{parse_bethsoftvid};

#[test]
fn parses_bethsoftvid_header() {
    let bytes = b"VID\0\0\0\0\x40\x01\xc8\0".to_vec();
    let doc = parse_bethsoftvid(&bytes).expect("valid bethsoft vid");
    assert_eq!(doc.format, "bethsoftvid");
    assert_eq!(doc.streams[0].codec_name, "pcm_u8");
    assert_eq!(doc.streams[1].width, Some(320));
    assert_eq!(doc.streams[1].height, Some(200));
}
