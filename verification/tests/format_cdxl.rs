use rmpeg::format::cdxl::{parse_cdxl};
use rmpeg::metadata::StreamMetadata;

fn dur(s: &StreamMetadata) -> Option<f64> {
    s.duration_seconds.map(|d| d.num as f64 / d.den as f64)
}

fn cdxl_header(frame_size: u16, width: u16, height: u16, audio_samples: u16) -> Vec<u8> {
    let mut bytes = vec![0; usize::from(frame_size) * 2];
    bytes[0] = 1;
    bytes[4..6].copy_from_slice(&frame_size.to_be_bytes());
    bytes[14..16].copy_from_slice(&width.to_be_bytes());
    bytes[16..18].copy_from_slice(&height.to_be_bytes());
    bytes[22..24].copy_from_slice(&audio_samples.to_be_bytes());
    bytes
}

#[test]
fn parses_video_only_cdxl() {
    let doc = parse_cdxl(&cdxl_header(40, 160, 120, 0)).expect("valid cdxl");
    assert_eq!(doc.format, "cdxl");
    assert_eq!(doc.streams.len(), 1);
    assert_eq!(doc.streams[0].codec_name, "cdxl");
    assert_eq!(doc.streams[0].width, Some(160));
    assert_eq!(doc.streams[0].height, Some(120));
}

#[test]
fn reports_audio_duration_from_complete_frames() {
    let doc = parse_cdxl(&cdxl_header(40, 160, 120, 1_102)).expect("valid cdxl");
    assert_eq!(doc.streams.len(), 2);
    assert_eq!(doc.streams[1].codec_name, "pcm_s8_planar");
    assert_eq!(dur(&doc.streams[1]), Some(2_204.0 / 11_025.0));
}
