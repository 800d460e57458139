use rmpeg::format::dts::{
    looks_like_mpegts, looks_like_raw_dts, parse_dts_core, parse_dtshd, parse_mpegts_dts, parse_raw_dts,
};
use rmpeg::metadata::StreamMetadata;

fn dur(s: &StreamMetadata) -> Option<f64> {
    s.duration_seconds.map(|d| d.num as f64 / d.den as f64)
}

#[test]
fn parses_dtshd_aupr_metadata() {
    let mut bytes = Vec::new();
    bytes.extend_from_slice(b"DTSHDHDR");
    bytes.extend_from_slice(&0_u64.to_be_bytes());
    bytes.extend_from_slice(b"AUPR-HDR");
    bytes.extend_from_slice(&24_u64.to_be_bytes());
    bytes.extend_from_slice(&[
        0x00, 0x00, 0x05, 0x00, 0xbb, 0x80, 0x00, 0x00, 0x00, 0x06, 0x02, 0x00, 0x00, 0x00,
        0x00, 0x08, 0x00, 0x08, 0x4b, 0x04, 0x00, 0x02, 0x00, 0x00,
    ]);

    let doc = parse_dtshd(&bytes).expect("dtshd");
    let stream = &doc.streams[0];
    assert_eq!(doc.format, "dtshd");
    assert_eq!(stream.codec_name, "dts");
    assert_eq!(stream.sample_rate, Some(48_000));
    assert_eq!(stream.channels, Some(8));
    assert_eq!(stream.bits_per_sample, Some(24));
    assert_eq!(dur(&stream), Some(0.064));
}

#[test]
fn parses_raw_dts_core_header() {
    let bytes = [
        0x7f, 0xfe, 0x80, 0x01, 0xfc, 0x3c, 0x7d, 0xb2, 0x77, 0x00, 0x1d, 0x3b, 0x40, 0x09,
        0xef, 0x7b,
    ];
    let core = parse_dts_core(&bytes).expect("core");
    assert_eq!(core.sample_rate, 48_000);
    assert_eq!(core.channels, 7);
    assert_eq!(core.bitrate, Some(1_536_000));
}

const CORE: [u8; 16] = [
    0x7f, 0xfe, 0x80, 0x01, 0xfc, 0x3c, 0x7d, 0xb2, 0x77, 0x00, 0x1d, 0x3b, 0x40, 0x09, 0xef, 0x7b,
];

fn ts_packet_with_pes(pts: u64) -> Vec<u8> {
    let mut p = vec![0x47, 0x40, 0x00, 0x10];
    p.extend_from_slice(&[0x00, 0x00, 0x01, 0xbd, 0x00, 0x00, 0x80, 0x80, 0x05]);
    p.push(0x21 | (((pts >> 30) & 7) as u8) << 1);
    p.push(((pts >> 22) & 0xff) as u8);
    p.push(((((pts >> 15) & 0x7f) as u8) << 1) | 1);
    p.push(((pts >> 7) & 0xff) as u8);
    p.push((((pts & 0x7f) as u8) << 1) | 1);
    p.extend_from_slice(&CORE);
    p.resize(188, 0xff);
    p
}

#[test]
fn raw_dts_duration_comes_from_the_bitrate() {
    let doc = parse_raw_dts(&CORE).expect("raw dts");
    assert_eq!(doc.format, "dts");
    let s = &doc.streams[0];
    assert_eq!(s.channels, Some(7));
    let d = s.duration_seconds.unwrap();
    assert_eq!((d.num, d.den), (128, 1_536_000));
    assert!(looks_like_raw_dts(&CORE));
}

#[test]
fn raw_dts_with_hd_extension_has_eight_channels_and_no_duration() {
    let mut bytes = CORE.to_vec();
    bytes.extend_from_slice(&[0x64, 0x58, 0x20, 0x25]);
    let doc = parse_raw_dts(&bytes).expect("raw dts");
    let s = &doc.streams[0];
    assert_eq!(s.channels, Some(8));
    assert_eq!(s.bits_per_sample, Some(24));
    assert_eq!(dur(s), Some(0.0));
}

#[test]
fn mpegts_dts_duration_spans_the_time_stamps() {
    let mut bytes = ts_packet_with_pes(90_000);
    bytes.extend(ts_packet_with_pes(180_000));
    let mut last = vec![0x47, 0x00, 0x00, 0x00];
    last.resize(188, 0xff);
    bytes.extend(last);
    assert!(looks_like_mpegts(&bytes));
    let doc = parse_mpegts_dts(&bytes).expect("mpegts dts");
    assert_eq!(doc.format, "mpegts");
    let s = &doc.streams[0];
    assert_eq!(s.sample_rate, Some(48_000));
    assert_eq!(dur(s), Some(1.0));
}

#[test]
fn mpegts_without_sync_is_rejected() {
    let bytes = vec![0u8; 188 * 3];
    assert!(!looks_like_mpegts(&bytes));
    assert!(parse_mpegts_dts(&bytes).is_err());
}

#[test]
fn dtshd_unknown_channel_mask_is_reported_in_hex() {
    let mut bytes = Vec::new();
    bytes.extend_from_slice(b"DTSHDHDR");
    bytes.extend_from_slice(&0_u64.to_be_bytes());
    bytes.extend_from_slice(b"AUPR-HDR");
    bytes.extend_from_slice(&20_u64.to_be_bytes());
    bytes.extend_from_slice(&[
        0x00, 0x00, 0x05, 0x00, 0xbb, 0x80, 0x00, 0x00, 0x00, 0x06, 0x02, 0x00, 0x00, 0x00,
        0x00, 0x08, 0x00, 0x00, 0x01, 0x04,
    ]);
    let err = parse_dtshd(&bytes).expect_err("bad mask");
    assert!(err.message().contains("unsupported DTS-HD channel mask 0x104"));
}
