use rmpeg::format::flv::{looks_like_flv, parse_aac_tag, parse_audio_tag, parse_flv};

#[test]
fn parses_aac_sequence_header() {
    let stream = parse_aac_tag(&[0xaf, 0x00, 0x12, 0x10], 0)
        .expect("valid tag")
        .expect("aac stream");

    assert_eq!(stream.codec_name, "aac");
    assert_eq!(stream.sample_rate, Some(44_100));
    assert_eq!(stream.channels, Some(2));
}

#[test]
fn parses_nellymoser_audio_tag_metadata() {
    let stream = parse_audio_tag(&[0x6a, 0xbe, 0x5b], 0)
        .expect("valid tag")
        .expect("nelly stream");

    assert_eq!(stream.codec_name, "nellymoser");
    assert_eq!(stream.sample_rate, Some(22_050));
    assert_eq!(stream.channels, Some(1));
    assert_eq!(stream.bits_per_sample, Some(0));
}

fn flv_with_tags(tags: &[(u8, &[u8])]) -> Vec<u8> {
    let mut bytes = b"FLV\x01\x05\x00\x00\x00\x09".to_vec();
    bytes.extend_from_slice(&0_u32.to_be_bytes());
    for (kind, data) in tags {
        bytes.push(*kind);
        let n = data.len() as u32;
        bytes.extend_from_slice(&[(n >> 16) as u8, (n >> 8) as u8, n as u8]);
        bytes.extend_from_slice(&[0; 7]);
        bytes.extend_from_slice(data);
        bytes.extend_from_slice(&(11 + n).to_be_bytes());
    }
    bytes
}

#[test]
fn flv_reports_first_audio_tag_only() {
    let bytes = flv_with_tags(&[(8, &[0x6a, 0xbe, 0x5b]), (8, &[0xaf, 0x00, 0x12, 0x10])]);
    assert!(looks_like_flv(&bytes));
    let doc = parse_flv(&bytes).expect("flv");
    assert_eq!(doc.format, "flv");
    assert_eq!(doc.streams.len(), 1);
    assert_eq!(doc.streams[0].codec_name, "nellymoser");
}

#[test]
fn flv_without_sequence_headers_is_rejected() {
    let bytes = flv_with_tags(&[(18, &[1, 2, 3])]);
    let err = parse_flv(&bytes).expect_err("no streams");
    assert!(err.message().contains("no supported sequence headers"));
}

#[test]
fn flv_bad_aac_config_is_an_error() {
    assert!(parse_aac_tag(&[0xaf, 0x00, 0xf8, 0x00], 0).is_err());
}
