use rmpeg::format::amv::{parse_amv};

#[test]
fn parses_observed_amv_header() {
    let mut bytes = vec![0; 0x58];
    bytes[0..4].copy_from_slice(b"RIFF");
    bytes[8..12].copy_from_slice(b"AMV ");
    bytes[0x40..0x44].copy_from_slice(&160_u32.to_le_bytes());
    bytes[0x44..0x48].copy_from_slice(&120_u32.to_le_bytes());

    let doc = parse_amv(&bytes).expect("amv");

    assert_eq!(doc.format, "avi");
    assert_eq!(doc.streams[0].codec_name, "amv");
    assert_eq!(doc.streams[1].codec_name, "adpcm_ima_amv");
}
