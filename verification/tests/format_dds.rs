use rmpeg::format::dds::{parse_dds};

#[test]
fn parses_dds_dimensions() {
    let mut bytes = vec![0; 128];
    bytes[0..4].copy_from_slice(b"DDS ");
    bytes[4..8].copy_from_slice(&124_u32.to_le_bytes());
    bytes[12..16].copy_from_slice(&80_u32.to_le_bytes());
    bytes[16..20].copy_from_slice(&64_u32.to_le_bytes());

    let doc = parse_dds(&bytes).expect("valid dds");
    let stream = &doc.streams[0];
    assert_eq!(doc.format, "dds_pipe");
    assert_eq!(stream.codec_name, "dds");
    assert_eq!(stream.width, Some(64));
    assert_eq!(stream.height, Some(80));
}

#[test]
fn rejects_bad_header_size() {
    let mut bytes = vec![0; 128];
    bytes[0..4].copy_from_slice(b"DDS ");
    bytes[4..8].copy_from_slice(&120_u32.to_le_bytes());
    let err = parse_dds(&bytes).expect_err("bad header");
    assert!(err.message().contains("header size"));
}
