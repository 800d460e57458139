use rmpeg::format::aac::{looks_like_adts_aac, parse_adts_aac, parse_audio_specific_config};
use rmpeg::metadata::StreamMetadata;

fn dur(s: &StreamMetadata) -> Option<f64> {
    s.duration_seconds.map(|d| d.num as f64 / d.den as f64)
}

const ADTS_LC_44K_STEREO_EMPTY_FRAME: [u8; 7] = [0xff, 0xf1, 0x50, 0x80, 0x00, 0xff, 0xfc];

#[test]
fn parses_minimal_adts_frame() {
    let doc = parse_adts_aac(&ADTS_LC_44K_STEREO_EMPTY_FRAME).expect("valid adts");
    let stream = &doc.streams[0];
    assert_eq!(doc.format, "aac");
    assert_eq!(stream.codec_name, "aac");
    assert_eq!(stream.sample_rate, Some(44_100));
    assert_eq!(stream.channels, Some(2));
    assert!(
        (dur(&stream).expect("duration") - (1024.0 / 44_100.0)).abs() < f64::EPSILON
    );
}

#[test]
fn skips_id3v2_tag_before_adts() {
    let mut bytes = b"ID3\x04\x00\x00\x00\x00\x00\x00".to_vec();
    bytes.extend_from_slice(&ADTS_LC_44K_STEREO_EMPTY_FRAME);

    assert!(looks_like_adts_aac(&bytes));
    parse_adts_aac(&bytes).expect("adts after id3");
}

#[test]
fn parses_audio_specific_config_for_lc_mono() {
    let config = parse_audio_specific_config(&[0x14, 0x08]).expect("asc");
    assert_eq!(config.codec_name, "aac");
    assert_eq!(config.sample_rate, Some(16_000));
    assert_eq!(config.channels, Some(1));
    assert_eq!(config.bits_per_sample, None);
}

#[test]
fn parses_audio_specific_config_program_config_and_sbr() {
    let config = parse_audio_specific_config(&[
        0x13, 0x00, 0x05, 0x8c, 0x01, 0x00, 0x01, 0x08, 0x80, 0x00, 0x56, 0xe5, 0x98,
    ])
    .expect("asc");
    assert_eq!(config.codec_name, "aac");
    assert_eq!(config.sample_rate, Some(48_000));
    assert_eq!(config.channels, Some(6));
}

#[test]
fn parses_audio_specific_config_for_mp4_als_wave_metadata() {
    let config = parse_audio_specific_config(&[
        0xf8, 0x9e, 0x01, 0x77, 0x00, 0x00, 0x41, 0x4c, 0x53, 0x00, 0x00, 0x00, 0xbb, 0x80,
        0x00, 0x0a, 0xd8, 0xfd, 0x00, 0x01, 0x24, 0x07, 0xff, 0x01, 0x20, 0x7f, 0x10, 0x80,
        0x00, 0x00, 0x00, 0x2c, 0x00, 0x00, 0x00, 0x00, b'R', b'I', b'F', b'F', 0x18, 0x64,
        0x2b, 0x00, b'W', b'A', b'V', b'E', b'f', b'm', b't', b' ', 0x10, 0x00, 0x00, 0x00,
        0x01, 0x00, 0x02, 0x00, 0x80, 0xbb, 0x00, 0x00, 0x00, 0xee, 0x02, 0x00, 0x04, 0x00,
        0x10, 0x00,
    ])
    .expect("asc");
    assert_eq!(config.codec_name, "mp4als");
    assert_eq!(config.sample_rate, Some(48_000));
    assert_eq!(config.channels, Some(2));
    assert_eq!(config.bits_per_sample, Some(16));
}

#[test]
fn adts_duration_counts_every_frame() {
    let mut bytes = ADTS_LC_44K_STEREO_EMPTY_FRAME.to_vec();
    bytes.extend_from_slice(&ADTS_LC_44K_STEREO_EMPTY_FRAME);
    let doc = parse_adts_aac(&bytes).expect("two frames");
    let d = doc.streams[0].duration_seconds.unwrap();
    assert_eq!((d.num, d.den), (2048, 44_100));
}

#[test]
fn adts_frame_longer_than_input_is_reported() {
    let bytes = [0xff, 0xf1, 0x50, 0x80, 0x01, 0xff, 0xfc];
    let err = parse_adts_aac(&bytes).expect_err("truncated");
    assert!(err.message().contains("needed 15 bytes, had 7"));
}

#[test]
fn id3_size_with_high_bit_is_rejected() {
    let mut bytes = b"ID3\x04\x00\x00\x80\x00\x00\x00".to_vec();
    bytes.extend_from_slice(&ADTS_LC_44K_STEREO_EMPTY_FRAME);
    assert!(parse_adts_aac(&bytes).is_err());
    assert!(!looks_like_adts_aac(&bytes));
}

#[test]
fn sbr_object_type_takes_the_extension_rate_and_two_channels() {
    let config = parse_audio_specific_config(&[0x2c, 0x09, 0x88]).expect("asc");
    assert_eq!(config.codec_name, "aac");
    assert_eq!(config.sample_rate, Some(48_000));
    assert_eq!(config.channels, Some(2));
}

#[test]
fn empty_audio_specific_config_is_not_read() {
    assert_eq!(parse_audio_specific_config(&[]), None);
    assert_eq!(parse_audio_specific_config(&[0x14]), None);
}

#[test]
fn accepted_adts_streams_pass_the_quick_check() {
    let mut bytes = b"ID3".to_vec();
    bytes.extend_from_slice(&[4, 0, 0, 0, 0, 0, 0]);
    bytes.extend_from_slice(&[0xff, 0xf1, 0x50, 0x80, 0x00, 0xff, 0xfc]);
    assert!(parse_adts_aac(&bytes).is_ok());
    assert!(looks_like_adts_aac(&bytes));
    assert!(!looks_like_adts_aac(b"ID3"));
    assert!(parse_adts_aac(b"not adts at all").is_err());
}
