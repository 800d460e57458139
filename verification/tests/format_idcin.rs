use rmpeg::format::idcin::{parse_idcin};

#[test]
fn parses_observed_idcin_header() {
    let mut bytes = vec![0; 24];
    bytes[0..4].copy_from_slice(&320_u32.to_le_bytes());
    bytes[4..8].copy_from_slice(&240_u32.to_le_bytes());
    bytes[8..12].copy_from_slice(&22_050_u32.to_le_bytes());
    bytes[12..16].copy_from_slice(&2_u32.to_le_bytes());
    bytes[20..24].copy_from_slice(&[0x00, 0x44, 0x00, 0x00]);

    let doc = parse_idcin(&bytes).expect("idcin");

    assert_eq!(doc.format, "idcin");
    assert_eq!(doc.streams[0].codec_name, "idcin");
    assert_eq!(doc.streams[1].codec_name, "pcm_s16le");
}
