use rmpeg::format::bmp::{parse_bmp};

fn bmp_with_dib_header(dib: &[u8]) -> Vec<u8> {
    let mut bytes = vec![0; 14];
    bytes[0..2].copy_from_slice(b"BM");
    bytes.extend_from_slice(dib);
    bytes
}

#[test]
fn parses_bitmap_info_header_dimensions() {
    let mut dib = vec![0; 40];
    dib[0..4].copy_from_slice(&40_u32.to_le_bytes());
    dib[4..8].copy_from_slice(&127_i32.to_le_bytes());
    dib[8..12].copy_from_slice(&64_i32.to_le_bytes());
    let doc = parse_bmp(&bmp_with_dib_header(&dib)).expect("valid bmp");
    let stream = &doc.streams[0];
    assert_eq!(doc.format, "bmp_pipe");
    assert_eq!(stream.codec_name, "bmp");
    assert_eq!(stream.width, Some(127));
    assert_eq!(stream.height, Some(64));
}

#[test]
fn parses_os2_core_header_dimensions() {
    let mut dib = vec![0; 12];
    dib[0..4].copy_from_slice(&12_u32.to_le_bytes());
    dib[4..6].copy_from_slice(&300_u16.to_le_bytes());
    dib[6..8].copy_from_slice(&22_u16.to_le_bytes());
    let doc = parse_bmp(&bmp_with_dib_header(&dib)).expect("valid bmp");
    let stream = &doc.streams[0];
    assert_eq!(stream.width, Some(300));
    assert_eq!(stream.height, Some(22));
}

#[test]
fn top_down_height_is_reported_positive() {
    let mut dib = vec![0; 40];
    dib[0..4].copy_from_slice(&40_u32.to_le_bytes());
    dib[4..8].copy_from_slice(&10_i32.to_le_bytes());
    dib[8..12].copy_from_slice(&(-20_i32).to_le_bytes());
    let doc = parse_bmp(&bmp_with_dib_header(&dib)).expect("valid bmp");
    assert_eq!(doc.streams[0].height, Some(20));
}

#[test]
fn rejects_unsupported_header_size() {
    let mut dib = vec![0; 16];
    dib[0..4].copy_from_slice(&16_u32.to_le_bytes());
    let err = parse_bmp(&bmp_with_dib_header(&dib)).expect_err("unsupported header");
    assert!(err.message().contains("DIB header size"));
}
