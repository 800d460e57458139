use rmpeg::format::avi::{parse_avi};
use rmpeg::metadata::StreamMetadata;

fn dur(s: &StreamMetadata) -> Option<f64> {
    s.duration_seconds.map(|d| d.num as f64 / d.den as f64)
}

#[test]
fn parses_minimal_utvideo_avi_metadata() {
    let mut bytes = Vec::new();
    let mut strh_payload = Vec::new();
    strh_payload.extend_from_slice(b"vids");
    strh_payload.extend_from_slice(b"ULRG");
    strh_payload.extend_from_slice(&[0; 12]);
    strh_payload.extend_from_slice(&1001_u32.to_le_bytes());
    strh_payload.extend_from_slice(&30000_u32.to_le_bytes());
    strh_payload.extend_from_slice(&[0; 4]);
    strh_payload.extend_from_slice(&4_u32.to_le_bytes());
    strh_payload.extend_from_slice(&[0; 20]);
    let strh = avi_chunk(b"strh", &strh_payload);

    let mut strf_payload = Vec::new();
    strf_payload.extend_from_slice(&56_u32.to_le_bytes());
    strf_payload.extend_from_slice(&640_i32.to_le_bytes());
    strf_payload.extend_from_slice(&480_i32.to_le_bytes());
    strf_payload.extend_from_slice(&[1, 0, 24, 0]);
    strf_payload.extend_from_slice(b"ULRG");
    strf_payload.extend_from_slice(&[0; 36]);
    let strf = avi_chunk(b"strf", &strf_payload);

    let strl = avi_list(b"strl", [strh, strf].concat());
    let hdrl = avi_list(b"hdrl", strl);
    bytes.extend_from_slice(b"RIFF");
    bytes.extend_from_slice(&(4 + hdrl.len() as u32).to_le_bytes());
    bytes.extend_from_slice(b"AVI ");
    bytes.extend_from_slice(&hdrl);

    let doc = parse_avi(&bytes).expect("avi");
    assert_eq!(doc.format, "avi");
    assert_eq!(doc.streams.len(), 1);
    let stream = &doc.streams[0];
    assert_eq!(stream.codec_name, "utvideo");
    assert_eq!(stream.width, Some(640));
    assert_eq!(stream.height, Some(480));
    assert!((dur(&stream).unwrap() - 0.13346666666666668).abs() < f64::EPSILON);
}

fn avi_list(kind: &[u8; 4], payload: Vec<u8>) -> Vec<u8> {
    let mut out = Vec::new();
    out.extend_from_slice(b"LIST");
    out.extend_from_slice(&(4 + payload.len() as u32).to_le_bytes());
    out.extend_from_slice(kind);
    out.extend_from_slice(&payload);
    out
}

fn avi_chunk(id: &[u8; 4], payload: &[u8]) -> Vec<u8> {
    let mut out = Vec::new();
    out.extend_from_slice(id);
    out.extend_from_slice(&(payload.len() as u32).to_le_bytes());
    out.extend_from_slice(payload);
    if payload.len() % 2 != 0 {
        out.push(0);
    }
    out
}

#[test]
fn avi_with_only_audio_stream_has_no_supported_streams() {
    let mut strh_payload = Vec::new();
    strh_payload.extend_from_slice(b"auds");
    strh_payload.extend_from_slice(&[0; 52]);
    let strl = avi_list(b"strl", avi_chunk(b"strh", &strh_payload));
    let mut bytes = Vec::new();
    bytes.extend_from_slice(b"RIFF");
    bytes.extend_from_slice(&(4 + strl.len() as u32).to_le_bytes());
    bytes.extend_from_slice(b"AVI ");
    bytes.extend_from_slice(&strl);
    let err = parse_avi(&bytes).expect_err("no video");
    assert!(err.message().contains("no supported streams"));
}

#[test]
fn avi_chunk_past_its_list_is_reported() {
    let mut bytes = Vec::new();
    bytes.extend_from_slice(b"RIFF");
    bytes.extend_from_slice(&20_u32.to_le_bytes());
    bytes.extend_from_slice(b"AVI ");
    bytes.extend_from_slice(b"JUNK");
    bytes.extend_from_slice(&100_u32.to_le_bytes());
    let err = parse_avi(&bytes).expect_err("bad chunk");
    assert!(err.message().contains("invalid AVI chunk JUNK size 100"));
}
