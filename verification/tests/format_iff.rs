use rmpeg::format::iff::{parse_iff};
use rmpeg::metadata::StreamMetadata;

fn dur(s: &StreamMetadata) -> Option<f64> {
    s.duration_seconds.map(|d| d.num as f64 / d.den as f64)
}

#[test]
fn parses_iff_image_dimensions() {
    let mut bytes = b"FORM\0\0\0\x20ILBMBMHD\0\0\0\x14".to_vec();
    bytes.extend_from_slice(&320_u16.to_be_bytes());
    bytes.extend_from_slice(&200_u16.to_be_bytes());
    bytes.extend_from_slice(&[0; 16]);
    let doc = parse_iff(&bytes).expect("valid iff");
    assert_eq!(doc.streams[0].width, Some(320));
    assert_eq!(doc.streams[0].height, Some(200));
}

#[test]
fn parses_8svx_audio_metadata() {
    let mut bytes = b"FORM\0\0\0\x308SVXVHDR\0\0\0\x14".to_vec();
    bytes.extend_from_slice(&100_u32.to_be_bytes());
    bytes.extend_from_slice(&20_u32.to_be_bytes());
    bytes.extend_from_slice(&0_u32.to_be_bytes());
    bytes.extend_from_slice(&12_000_u16.to_be_bytes());
    bytes.extend_from_slice(&[1, 1, 0, 0, 0, 0]);
    bytes.extend_from_slice(b"CHAN\0\0\0\x04");
    bytes.extend_from_slice(&6_u32.to_be_bytes());
    let doc = parse_iff(&bytes).expect("valid 8svx");
    assert_eq!(doc.streams[0].codec_name, "8svx_fib");
    assert_eq!(doc.streams[0].channels, Some(2));
    assert_eq!(dur(&doc.streams[0]), Some(0.01));
}

#[test]
fn parses_anim_ilbm_with_sxhd_audio_metadata() {
    let mut bytes = b"FORM\0\0\0\0ANIMFORM\0\0\0\x3eILBMBMHD\0\0\0\x14".to_vec();
    bytes.extend_from_slice(&320_u16.to_be_bytes());
    bytes.extend_from_slice(&200_u16.to_be_bytes());
    bytes.extend_from_slice(&[0; 16]);
    bytes.extend_from_slice(b"SXHD\0\0\0\x16");
    bytes.extend_from_slice(&[0; 18]);
    bytes.extend_from_slice(&14_977_u16.to_be_bytes());
    bytes.extend_from_slice(&[0; 2]);

    let doc = parse_iff(&bytes).expect("anim");

    assert_eq!(doc.streams[0].codec_name, "iff_ilbm");
    assert_eq!(doc.streams[0].width, Some(320));
    assert_eq!(doc.streams[1].codec_name, "pcm_s8_planar");
    assert_eq!(doc.streams[1].sample_rate, Some(14_977));
}
