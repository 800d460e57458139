use rmpeg::format::caf::{parse_caf};
use rmpeg::metadata::StreamMetadata;

fn dur(s: &StreamMetadata) -> Option<f64> {
    s.duration_seconds.map(|d| d.num as f64 / d.den as f64)
}

fn caf_desc(codec: &[u8; 4], bytes_per_packet: u32, frames_per_packet: u32) -> Vec<u8> {
    let mut bytes = b"caff\0\x01\0\0desc\0\0\0\0\0\0\0\x20".to_vec();
    bytes.extend_from_slice(&48_000_f64.to_be_bytes());
    bytes.extend_from_slice(codec);
    bytes.extend_from_slice(&0_u32.to_be_bytes());
    bytes.extend_from_slice(&bytes_per_packet.to_be_bytes());
    bytes.extend_from_slice(&frames_per_packet.to_be_bytes());
    bytes.extend_from_slice(&2_u32.to_be_bytes());
    bytes.extend_from_slice(&0_u32.to_be_bytes());
    bytes
}

#[test]
fn parses_packet_table_duration() {
    let mut bytes = caf_desc(b"aac ", 0, 1024);
    bytes.extend_from_slice(b"pakt\0\0\0\0\0\0\0\x18");
    bytes.extend_from_slice(&1_u64.to_be_bytes());
    bytes.extend_from_slice(&48_000_u64.to_be_bytes());
    bytes.extend_from_slice(&24_u32.to_be_bytes());
    bytes.extend_from_slice(&24_u32.to_be_bytes());
    let doc = parse_caf(&bytes).expect("valid caf");
    assert_eq!(doc.streams[0].codec_name, "aac");
    assert_eq!(dur(&doc.streams[0]), Some(1.001));
}
