use rmpeg::format::asf::{parse_asf, parse_audio_stream_data, parse_video_stream_data, AsfMetadata, AsfStream};

#[test]
fn parses_observed_mss2_video_payload() {
    let mut metadata = AsfMetadata::default();
    let mut payload = vec![0; 64];
    payload[0..4].copy_from_slice(&320u32.to_le_bytes());
    payload[4..8].copy_from_slice(&240u32.to_le_bytes());
    payload[27..31].copy_from_slice(b"MSS2");

    parse_video_stream_data(&payload, &mut metadata).unwrap();

    match metadata.streams.as_slice() {
        [AsfStream::Video { codec_name, width, height }] => {
            assert_eq!(*codec_name, "mss2");
            assert_eq!(*width, 320);
            assert_eq!(*height, 240);
        }
        streams => panic!("unexpected streams: {streams:?}"),
    }
}

#[test]
fn reports_zero_bits_for_wmapro() {
    let mut metadata = AsfMetadata::default();
    let wave = [
        0x62, 0x01, // WMAPro
        0x02, 0x00, // channels
        0x44, 0xac, 0x00, 0x00, // sample rate
        0x85, 0x3e, 0x00, 0x00, // byte rate
        0x9d, 0x0b, // block align
        0x18, 0x00, // header bits per sample
    ];

    parse_audio_stream_data(&wave, &mut metadata).unwrap();

    match metadata.streams.as_slice() {
        [AsfStream::Audio { codec_name, bits_per_sample, .. }] => {
            assert_eq!(*codec_name, "wmapro");
            assert_eq!(*bits_per_sample, 0);
        }
        streams => panic!("unexpected streams: {streams:?}"),
    }
}

#[test]
fn maps_observed_g2m_video_tags() {
    let mut metadata = AsfMetadata::default();
    let mut payload = vec![0; 64];
    payload[0..4].copy_from_slice(&1280u32.to_le_bytes());
    payload[4..8].copy_from_slice(&1024u32.to_le_bytes());
    payload[27..31].copy_from_slice(b"G2M4");

    parse_video_stream_data(&payload, &mut metadata).unwrap();

    match metadata.streams.as_slice() {
        [AsfStream::Video { codec_name, width, height }] => {
            assert_eq!(*codec_name, "g2m");
            assert_eq!(*width, 1280);
            assert_eq!(*height, 1024);
        }
        streams => panic!("unexpected streams: {streams:?}"),
    }
}

const HEADER: [u8; 16] = [0x30, 0x26, 0xb2, 0x75, 0x8e, 0x66, 0xcf, 0x11, 0xa6, 0xd9, 0x00, 0xaa, 0x00, 0x62, 0xce, 0x6c];
const FILE_PROPS: [u8; 16] = [0xa1, 0xdc, 0xab, 0x8c, 0x47, 0xa9, 0xcf, 0x11, 0x8e, 0xe4, 0x00, 0xc0, 0x0c, 0x20, 0x53, 0x65];
const STREAM_PROPS: [u8; 16] = [0x91, 0x07, 0xdc, 0xb7, 0xb7, 0xa9, 0xcf, 0x11, 0x8e, 0xe6, 0x00, 0xc0, 0x0c, 0x20, 0x53, 0x65];
const AUDIO: [u8; 16] = [0x40, 0x9e, 0x69, 0xf8, 0x4d, 0x5b, 0xcf, 0x11, 0xa8, 0xfd, 0x00, 0x80, 0x5f, 0x5c, 0x44, 0x2b];

fn object(guid: &[u8; 16], data: &[u8]) -> Vec<u8> {
    let mut v = guid.to_vec();
    v.extend_from_slice(&((data.len() + 24) as u64).to_le_bytes());
    v.extend_from_slice(data);
    v
}

fn asf_with_wmav2(play_100ns: u64, preroll_ms: u64) -> Vec<u8> {
    let mut file_props = vec![0u8; 80];
    file_props[40..48].copy_from_slice(&play_100ns.to_le_bytes());
    file_props[56..64].copy_from_slice(&preroll_ms.to_le_bytes());
    let mut stream = vec![0u8; 54 + 16];
    stream[0..16].copy_from_slice(&AUDIO);
    stream[40..44].copy_from_slice(&16u32.to_le_bytes());
    stream[54..56].copy_from_slice(&0x0161u16.to_le_bytes());
    stream[56..58].copy_from_slice(&2u16.to_le_bytes());
    stream[58..62].copy_from_slice(&44_100u32.to_le_bytes());
    stream[62..66].copy_from_slice(&16_000u32.to_le_bytes());
    let objects = [object(&FILE_PROPS, &file_props), object(&STREAM_PROPS, &stream)].concat();
    let mut bytes = HEADER.to_vec();
    bytes.extend_from_slice(&((30 + objects.len()) as u64).to_le_bytes());
    bytes.extend_from_slice(&2u32.to_le_bytes());
    bytes.extend_from_slice(&[1, 2]);
    bytes.extend_from_slice(&objects);
    let total = bytes.len() as u64;
    bytes[30 + 24 + 16..30 + 24 + 24].copy_from_slice(&total.to_le_bytes());
    bytes
}

#[test]
fn asf_duration_is_play_duration_less_preroll() {
    let doc = parse_asf(&asf_with_wmav2(35_000_000, 500)).expect("asf");
    assert_eq!(doc.format, "asf");
    let stream = &doc.streams[0];
    assert_eq!(stream.codec_name, "wmav2");
    assert_eq!(stream.sample_rate, Some(44_100));
    assert_eq!(stream.channels, Some(2));
    let d = stream.duration_seconds.unwrap();
    assert_eq!(d.num as f64 / d.den as f64, 3.0);
}

#[test]
fn asf_without_streams_is_rejected() {
    let mut bytes = HEADER.to_vec();
    bytes.extend_from_slice(&30u64.to_le_bytes());
    bytes.extend_from_slice(&0u32.to_le_bytes());
    bytes.extend_from_slice(&[1, 2]);
    assert!(parse_asf(&bytes).is_err());
}
