use rmpeg::format::ac3::{
    looks_like_raw_ac3_or_eac3, parse_ac3_info, parse_eac3_info, parse_raw_ac3_or_eac3,
    parse_raw_ac3_or_eac3_scanning, Ac3Kind,
};

#[test]
fn parses_ac3_header() {
    let bytes = [
        0x0b, 0x77, 0x88, 0xca, 0x1c, 0x40, 0xa0, 0xdf, 0xa0, 0xc0, 0x7f, 0x4a,
    ];
    let info = parse_ac3_info(&bytes).expect("valid ac3");
    assert_eq!(info.kind, Ac3Kind::Ac3);
    assert_eq!(info.sample_rate, 48_000);
    assert_eq!(info.channels, 4);
    assert_eq!(info.bitrate, 384_000);
}

#[test]
fn parses_eac3_header() {
    let bytes = [
        0x0b, 0x77, 0x01, 0xff, 0x3f, 0x86, 0xa0, 0x36, 0x49, 0x23, 0x04, 0x64,
    ];
    let info = parse_eac3_info(&bytes).expect("valid eac3");
    assert_eq!(info.kind, Ac3Kind::Eac3);
    assert_eq!(info.sample_rate, 48_000);
    assert_eq!(info.channels, 6);
    assert_eq!(info.bitrate, 256_000);
}

#[test]
fn path_gated_scan_finds_prefixed_eac3_sync() {
    let bytes = [
        0xaa, 0xbb, 0x0b, 0x77, 0x00, 0xff, 0x34, 0x86, 0xff, 0xf0, 0x47, 0x12, 0x81, 0x00,
    ];
    let doc = parse_raw_ac3_or_eac3_scanning(&bytes).expect("valid prefixed eac3");
    assert_eq!(doc.format, "eac3");
    assert_eq!(doc.streams[0].codec_name, "eac3");
    assert_eq!(doc.streams[0].channels, Some(2));
}

#[test]
fn raw_ac3_duration_is_bits_over_bitrate() {
    let bytes = [
        0x0b, 0x77, 0x88, 0xca, 0x1c, 0x40, 0xa0, 0xdf, 0xa0, 0xc0, 0x7f, 0x4a,
    ];
    let doc = parse_raw_ac3_or_eac3(&bytes).expect("valid ac3");
    assert_eq!(doc.format, "ac3");
    let d = doc.streams[0].duration_seconds.unwrap();
    assert_eq!((d.num, d.den), (96, 384_000));
    assert_eq!(doc.streams[0].sample_rate, Some(48_000));
    assert!(looks_like_raw_ac3_or_eac3(&bytes));
}

#[test]
fn stream_without_sync_word_is_rejected() {
    let bytes = [0u8; 16];
    assert!(parse_raw_ac3_or_eac3_scanning(&bytes).is_err());
    assert!(parse_raw_ac3_or_eac3(&bytes).is_err());
    assert!(!looks_like_raw_ac3_or_eac3(&bytes));
}

#[test]
fn short_header_is_not_read() {
    assert_eq!(parse_ac3_info(&[0x0b, 0x77, 0x88, 0xca, 0x1c, 0x40]), None);
    assert_eq!(parse_eac3_info(&[0x0b, 0x77, 0x01, 0xff, 0x3f, 0x86, 0xa0]), None);
}
