use rmpeg::format::flac::{parse_flac};
use rmpeg::metadata::StreamMetadata;

fn dur(s: &StreamMetadata) -> Option<f64> {
    s.duration_seconds.map(|d| d.num as f64 / d.den as f64)
}

fn streaminfo(sample_rate: u32, channels: u16, bits_per_sample: u16, samples: u64) -> Vec<u8> {
    let mut data = vec![0; 34];
    let packed = (u64::from(sample_rate) << 44)
        | (u64::from(channels - 1) << 41)
        | (u64::from(bits_per_sample - 1) << 36)
        | samples;
    data[10..18].copy_from_slice(&packed.to_be_bytes());
    data
}

fn push_block(bytes: &mut Vec<u8>, block_type: u8, is_last: bool, data: &[u8]) {
    bytes.push(block_type | if is_last { 0x80 } else { 0 });
    bytes.push(((data.len() >> 16) & 0xff) as u8);
    bytes.push(((data.len() >> 8) & 0xff) as u8);
    bytes.push((data.len() & 0xff) as u8);
    bytes.extend_from_slice(data);
}

fn picture_block(mime: &[u8], width: u32, height: u32) -> Vec<u8> {
    picture_block_with_payload(mime, width, height, &[0xff, 0xd8])
}

fn picture_block_with_payload(mime: &[u8], width: u32, height: u32, payload: &[u8]) -> Vec<u8> {
    let mut data = Vec::new();
    data.extend_from_slice(&3_u32.to_be_bytes());
    data.extend_from_slice(&(mime.len() as u32).to_be_bytes());
    data.extend_from_slice(mime);
    data.extend_from_slice(&0_u32.to_be_bytes());
    data.extend_from_slice(&width.to_be_bytes());
    data.extend_from_slice(&height.to_be_bytes());
    data.extend_from_slice(&24_u32.to_be_bytes());
    data.extend_from_slice(&0_u32.to_be_bytes());
    data.extend_from_slice(&(payload.len() as u32).to_be_bytes());
    data.extend_from_slice(payload);
    data
}

fn minimal_jpeg(width: u16, height: u16) -> Vec<u8> {
    vec![
        0xff,
        0xd8,
        0xff,
        0xc0,
        0x00,
        0x0b,
        8,
        (height >> 8) as u8,
        height as u8,
        (width >> 8) as u8,
        width as u8,
        3,
        1,
        0x11,
        0,
        0xff,
        0xd9,
    ]
}

#[test]
fn parses_streaminfo_only_flac() {
    let mut bytes = b"fLaC".to_vec();
    push_block(&mut bytes, 0, true, &streaminfo(44_100, 2, 16, 44_100));

    let doc = parse_flac(&bytes).expect("flac");

    assert_eq!(doc.format, "flac");
    assert_eq!(doc.streams.len(), 1);
    assert_eq!(doc.streams[0].codec_name, "flac");
    assert_eq!(dur(&doc.streams[0]), Some(1.0));
}

#[test]
fn parses_flac_picture_block_as_attached_video_stream() {
    let mut bytes = b"fLaC".to_vec();
    push_block(&mut bytes, 0, false, &streaminfo(44_100, 2, 16, 88_200));
    push_block(&mut bytes, 6, true, &picture_block(b"image/jpeg", 350, 351));

    let doc = parse_flac(&bytes).expect("flac with picture");

    assert_eq!(doc.streams.len(), 2);
    assert_eq!(doc.streams[0].codec_name, "flac");
    assert_eq!(doc.streams[1].index, 1);
    assert_eq!(doc.streams[1].codec_name, "mjpeg");
    assert_eq!(doc.streams[1].width, Some(350));
    assert_eq!(doc.streams[1].height, Some(351));
    assert_eq!(dur(&doc.streams[1]), Some(2.0));
}

#[test]
fn parses_flac_picture_dimensions_from_embedded_jpeg_when_block_dimensions_are_zero() {
    let mut bytes = b"fLaC".to_vec();
    push_block(&mut bytes, 0, false, &streaminfo(44_100, 2, 16, 88_200));
    push_block(
        &mut bytes,
        6,
        true,
        &picture_block_with_payload(b"image/jpeg", 0, 0, &minimal_jpeg(350, 352)),
    );

    let doc = parse_flac(&bytes).expect("flac with zero-dimension picture block");

    assert_eq!(doc.streams.len(), 2);
    assert_eq!(doc.streams[1].codec_name, "mjpeg");
    assert_eq!(doc.streams[1].width, Some(350));
    assert_eq!(doc.streams[1].height, Some(352));
}
