use rmpeg::format::cdg::{parse_cdg};
use rmpeg::metadata::StreamMetadata;

const CDG_PACKET_SIZE: usize = 24;

fn dur(s: &StreamMetadata) -> Option<f64> {
    s.duration_seconds.map(|d| d.num as f64 / d.den as f64)
}

#[test]
fn parses_cdg_duration_from_packet_count() {
    let mut bytes = Vec::new();
    for _ in 0..600 {
        bytes.extend_from_slice(&[0x09; CDG_PACKET_SIZE]);
    }

    let doc = parse_cdg(&bytes).expect("cdg");

    assert_eq!(doc.format, "cdg");
    assert_eq!(doc.streams[0].codec_name, "cdgraphics");
    assert_eq!(doc.streams[0].width, Some(300));
    assert_eq!(doc.streams[0].height, Some(216));
    assert_eq!(dur(&doc.streams[0]), Some(2.0));
    assert_eq!(doc.streams[0].frame_rate.as_deref(), Some("300/1"));
}
