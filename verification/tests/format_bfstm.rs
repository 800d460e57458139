use rmpeg::format::bfstm::{parse_bfstm_or_brstm};
use rmpeg::metadata::StreamMetadata;

fn dur(s: &StreamMetadata) -> Option<f64> {
    s.duration_seconds.map(|d| d.num as f64 / d.den as f64)
}

#[test]
fn parses_observed_little_endian_bcstm_header() {
    let mut bytes = vec![0; 0x80];
    bytes[0..6].copy_from_slice(b"CSTM\xff\xfe");
    bytes[0x40..0x44].copy_from_slice(b"INFO");
    bytes[0x60] = 2;
    bytes[0x62] = 2;
    bytes[0x64..0x68].copy_from_slice(&32_000_u32.to_le_bytes());
    bytes[0x6c..0x70].copy_from_slice(&69_760_u32.to_le_bytes());

    let doc = parse_bfstm_or_brstm(&bytes).expect("bcstm");

    assert_eq!(doc.format, "bfstm");
    assert_eq!(doc.streams[0].codec_name, "adpcm_thp_le");
    assert_eq!(doc.streams[0].sample_rate, Some(32_000));
    assert_eq!(doc.streams[0].channels, Some(2));
    assert_eq!(dur(&doc.streams[0]), Some(2.18));
}

#[test]
fn parses_observed_big_endian_bfstm_header() {
    let mut bytes = vec![0; 0x80];
    bytes[0..6].copy_from_slice(b"FSTM\xfe\xff");
    bytes[0x40..0x44].copy_from_slice(b"INFO");
    bytes[0x60] = 2;
    bytes[0x62] = 1;
    bytes[0x64..0x68].copy_from_slice(&32_000_u32.to_be_bytes());
    bytes[0x6c..0x70].copy_from_slice(&226_499_u32.to_be_bytes());

    let doc = parse_bfstm_or_brstm(&bytes).expect("bfstm");

    assert_eq!(doc.format, "bfstm");
    assert_eq!(doc.streams[0].codec_name, "adpcm_thp");
    assert_eq!(doc.streams[0].channels, Some(1));
    assert_eq!(dur(&doc.streams[0]), Some(226_499.0 / 32_000.0));
}

#[test]
fn parses_observed_brstm_header() {
    let mut bytes = vec![0; 0x80];
    bytes[0..6].copy_from_slice(b"RSTM\xfe\xff");
    bytes[0x40..0x44].copy_from_slice(b"HEAD");
    bytes[0x60] = 2;
    bytes[0x62] = 6;
    bytes[0x64..0x66].copy_from_slice(&32_000_u16.to_be_bytes());
    bytes[0x6c..0x70].copy_from_slice(&2_655_726_u32.to_be_bytes());

    let doc = parse_bfstm_or_brstm(&bytes).expect("brstm");

    assert_eq!(doc.format, "brstm");
    assert_eq!(doc.streams[0].codec_name, "adpcm_thp");
    assert_eq!(doc.streams[0].channels, Some(6));
    assert_eq!(
        dur(&doc.streams[0]),
        Some(2_655_726.0 / 32_000.0)
    );
}
