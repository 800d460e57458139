use rmpeg::codec::h264::{mp4_h264_frame_hashes, H264SampleData};
use rmpeg::codec::audio::compressed_audio_frame_hashes;
use rmpeg::codec::audio::{
    compressed_audio_frame_hashes_from, audio_frame_hashes_from_samples, ceil_to_frame_boundary, channel_count, ogg_packets,
    samples_to_s16le_bytes, trim_aac_priming_and_padding, empty_shape, finish_shape, is_ogg_opus,
    is_opus_audio_packet, merge_packet_shape, opus_head, trim_opus_samples, DecodedShape, OpusHead, trim_ogg_vorbis_output, vorbis_output_frames, DecodedAudio,
};
use rmpeg::codec::digest::md5_hex;
use rmpeg::codec::pcm::{
    decoded_s24le_frame_bytes, decoded_s32le_frame_bytes, pcm_frame_hashes, wav_framemd5_samples_per_frame, WavFile,
    WavFormat,
};
use rmpeg::codec::png::{png_image_frame_hash_document, png_image_frame_hashes, png_listing};
use rmpeg::codec::video::{mp4_h264_document_from, pack_yuv420p, push_yuv420p_frame_hash, Mp4H264BitstreamConverter, Yuv420Picture};
use rmpeg::error::RmpegError;

fn silent_wav(sample_count: usize) -> Vec<u8> {
    let data_size = sample_count * 2;
    let riff_size = 4 + 24 + 8 + data_size;
    let mut bytes = Vec::new();
    bytes.extend_from_slice(b"RIFF");
    bytes.extend_from_slice(&(riff_size as u32).to_le_bytes());
    bytes.extend_from_slice(b"WAVEfmt ");
    bytes.extend_from_slice(&16_u32.to_le_bytes());
    bytes.extend_from_slice(&1_u16.to_le_bytes());
    bytes.extend_from_slice(&1_u16.to_le_bytes());
    bytes.extend_from_slice(&8000_u32.to_le_bytes());
    bytes.extend_from_slice(&16000_u32.to_le_bytes());
    bytes.extend_from_slice(&2_u16.to_le_bytes());
    bytes.extend_from_slice(&16_u16.to_le_bytes());
    bytes.extend_from_slice(b"data");
    bytes.extend_from_slice(&(data_size as u32).to_le_bytes());
    bytes.resize(bytes.len() + data_size, 0);
    bytes
}

fn silent_wav_file(sample_count: usize) -> WavFile {
    WavFile {
        metadata: WavFormat { sample_rate: 8000, channels: 1, block_align: 2, bits_per_sample: 16 },
        data_offset: 44,
        data_size: sample_count * 2,
    }
}

fn ogg_page(granule: u64, packet: &[u8]) -> Vec<u8> {
    assert!(packet.len() < 255);
    let mut page = Vec::new();
    page.extend_from_slice(b"OggS");
    page.push(0);
    page.push(0);
    page.extend_from_slice(&granule.to_le_bytes());
    page.extend_from_slice(&1_u32.to_le_bytes());
    page.extend_from_slice(&0_u32.to_le_bytes());
    page.extend_from_slice(&0_u32.to_le_bytes());
    page.push(1);
    page.push(packet.len() as u8);
    page.extend_from_slice(packet);
    page
}

#[test]
fn chunks_like_ffmpeg_framemd5_for_pcm() {
    let bytes = silent_wav(1100);
    let wav = silent_wav_file(1100);
    let frames = pcm_frame_hashes(&bytes, &wav).expect("hashes");
    assert_eq!(frames.len(), 3);
    assert_eq!(frames[0].duration, 512);
    assert_eq!(frames[0].size, 1024);
    assert_eq!(frames[0].hash, "0f343b0931126a20f133d67c2b018a3b");
    assert_eq!(frames[1].duration, 512);
    assert_eq!(frames[2].duration, 76);
}

#[test]
fn packet_size_tracks_observed_ffmpeg_wav_behavior() {
    assert_eq!(wav_framemd5_samples_per_frame(8000).unwrap(), 512);
    assert_eq!(wav_framemd5_samples_per_frame(22050).unwrap(), 2048);
    assert_eq!(wav_framemd5_samples_per_frame(44100).unwrap(), 4096);
    assert_eq!(wav_framemd5_samples_per_frame(48000).unwrap(), 4096);
}

#[test]
fn decodes_wide_pcm_frames_as_s16le() {
    assert_eq!(
        decoded_s24le_frame_bytes(&[0x00, 0x00, 0x00, 0x00, 0x80, 0x00, 0x00, 0x00, 0x80, 0xff, 0xff, 0x7f]).unwrap(),
        vec![0x00, 0x00, 0x80, 0x00, 0x00, 0x80, 0xff, 0x7f]
    );
    assert_eq!(
        decoded_s32le_frame_bytes(&[
            0x00, 0x00, 0x00, 0x00, 0x00, 0x00, 0x01, 0x00, 0x00, 0x00, 0x00, 0x80, 0xff, 0xff, 0xff, 0x7f
        ])
        .unwrap(),
        vec![0x00, 0x00, 0x01, 0x00, 0x00, 0x80, 0xff, 0x7f]
    );
    assert!(decoded_s24le_frame_bytes(&[0]).is_err());
    assert!(decoded_s32le_frame_bytes(&[0, 0]).is_err());
}

#[test]
fn rejects_too_low_sample_rates_and_zero_block_align() {
    assert!(matches!(wav_framemd5_samples_per_frame(9), Err(RmpegError::InvalidData(_))));
    assert_eq!(wav_framemd5_samples_per_frame(10).unwrap(), 1);
    let bytes = silent_wav(4);
    let mut wav = silent_wav_file(4);
    wav.metadata.block_align = 0;
    assert!(matches!(pcm_frame_hashes(&bytes, &wav), Err(RmpegError::InvalidData(_))));
    let mut wav = silent_wav_file(4);
    wav.data_size = 100;
    assert!(matches!(pcm_frame_hashes(&bytes, &wav), Err(RmpegError::UnexpectedEof { needed: 144, remaining: 52 })));
    let mut wav = silent_wav_file(4);
    wav.metadata.bits_per_sample = 12;
    assert!(matches!(pcm_frame_hashes(&bytes, &wav), Err(RmpegError::Unsupported(_))));
}

#[test]
fn hashes_interleaved_s16_samples() {
    let frames = audio_frame_hashes_from_samples(&[1, -1, 2, -2], 8_000, 2).unwrap();
    assert_eq!(frames.len(), 1);
    assert_eq!(frames[0].duration, 2);
    assert_eq!(frames[0].size, 8);
    assert_eq!(frames[0].hash, "04ba39ea65399c4d0a2916799d1a9475");
}

#[test]
fn hashes_decoded_audio_document() {
    let decoded = DecodedAudio { sample_rate: 8_000, channels: 2, samples: vec![1, -1, 2, -2] };
    let document = compressed_audio_frame_hashes_from(decoded).unwrap();
    assert_eq!(document.sample_rate, 8_000);
    assert_eq!(document.channels, 2);
    assert_eq!(document.frames[0].hash, "04ba39ea65399c4d0a2916799d1a9475");
    let misaligned = DecodedAudio { sample_rate: 8_000, channels: 2, samples: vec![1, -1, 2] };
    assert!(matches!(compressed_audio_frame_hashes_from(misaligned), Err(RmpegError::InvalidData(_))));
    assert!(matches!(audio_frame_hashes_from_samples(&[1], 8_000, 0), Err(RmpegError::InvalidData(_))));
}

#[test]
fn serializes_s16le_samples() {
    assert_eq!(samples_to_s16le_bytes(&[0, 0x1234, -2]), vec![0, 0, 0x34, 0x12, 0xfe, 0xff]);
}

#[test]
fn rounds_aac_duration_to_frame_boundary() {
    assert_eq!(ceil_to_frame_boundary(44_100, 1_024), Some(45_056));
}

#[test]
fn rounds_to_frame_boundaries_at_the_edges() {
    assert_eq!(ceil_to_frame_boundary(1_024, 1_024), Some(1_024));
    assert_eq!(ceil_to_frame_boundary(0, 1_024), Some(0));
    assert_eq!(ceil_to_frame_boundary(5, 0), None);
    assert_eq!(ceil_to_frame_boundary(usize::MAX, 1_024), Some(usize::MAX));
}

#[test]
fn trims_mp4_aac_priming_before_padding() {
    let mut samples = (0..6).collect::<Vec<_>>();
    trim_aac_priming_and_padding(&mut samples, 1, 4);
    assert_eq!(samples, vec![0, 1, 2, 3]);

    let mut samples = (0..5).collect::<Vec<_>>();
    trim_aac_priming_and_padding(&mut samples, 1, 3);
    assert_eq!(samples, vec![0, 1, 2]);

    let mut samples = (0..2048).collect::<Vec<_>>();
    trim_aac_priming_and_padding(&mut samples, 1, 1024);
    assert_eq!(samples[0], 1024);
    assert_eq!(samples.len(), 1024);
}

#[test]
fn extracts_ogg_packets_from_lacing_segments() {
    let mut page = Vec::new();
    page.extend_from_slice(b"OggS");
    page.resize(26, 0);
    page.push(2);
    page.push(3);
    page.push(2);
    page.extend_from_slice(b"abcde");
    assert_eq!(ogg_packets(&page).unwrap(), vec![b"abc".to_vec(), b"de".to_vec()]);
}

#[test]
fn rejects_broken_ogg_streams() {
    assert!(matches!(ogg_packets(b"OggX"), Err(RmpegError::InvalidData(_))));
    let mut page = Vec::new();
    page.extend_from_slice(b"OggS");
    page.resize(26, 0);
    page.push(1);
    page.push(255);
    page.resize(page.len() + 255, 7);
    assert!(matches!(ogg_packets(&page), Err(RmpegError::InvalidData(_))));
    let mut short = Vec::new();
    short.extend_from_slice(b"OggS");
    short.resize(26, 0);
    short.push(1);
    short.push(9);
    assert!(matches!(ogg_packets(&short), Err(RmpegError::UnexpectedEof { needed: 37, remaining: 28 })));
}

#[test]
fn trims_vorbis_output_by_initial_discard_and_final_granule() {
    let mut ident = vec![0; 30];
    ident[..7].copy_from_slice(b"\x01vorbis");
    ident[28] = 8;

    let mut ogg = Vec::new();
    ogg.extend_from_slice(&ogg_page(0, &ident));
    ogg.extend_from_slice(&ogg_page(44_100, b"audio"));

    assert_eq!(vorbis_output_frames(&ogg).unwrap(), Some(43_972));
}

#[test]
fn trims_ogg_vorbis_samples_only_for_ogg_extension() {
    let mut ident = vec![0; 30];
    ident[..7].copy_from_slice(b"\x01vorbis");
    ident[28] = 1;
    let mut ogg = Vec::new();
    ogg.extend_from_slice(&ogg_page(0, &ident));
    ogg.extend_from_slice(&ogg_page(4, b"audio"));
    assert_eq!(vorbis_output_frames(&ogg).unwrap(), Some(3));

    let mut samples: Vec<i16> = (0..10).collect();
    trim_ogg_vorbis_output(&ogg, Some("OGG"), 2, &mut samples);
    assert_eq!(samples, vec![0, 1, 2, 3, 4, 5]);

    let mut samples: Vec<i16> = (0..10).collect();
    trim_ogg_vorbis_output(&ogg, Some("mp3"), 2, &mut samples);
    assert_eq!(samples.len(), 10);
    assert_eq!(vorbis_output_frames(&ogg_page(4, b"audio")).unwrap(), None);
}

#[test]
fn limits_channel_counts_to_sixteen_bits() {
    assert_eq!(channel_count(2).unwrap(), 2);
    assert!(matches!(channel_count(70_000), Err(RmpegError::Unsupported(_))));
}

#[test]
fn converts_mp4_h264_packet_to_annex_b_and_injects_parameter_sets() {
    let converter = Mp4H264BitstreamConverter::new(4, vec![vec![0x67, 0x42]], vec![vec![0x68, 0xce]]).unwrap();
    let packet = [0, 0, 0, 2, 0x06, 0x05, 0, 0, 0, 3, 0x65, 0x88, 0x84];
    let mut out = Vec::new();

    converter.convert_packet(&packet, &mut out).unwrap();

    assert_eq!(
        out,
        vec![0, 0, 1, 0x06, 0x05, 0, 0, 1, 0x67, 0x42, 0, 0, 1, 0x68, 0xce, 0, 0, 1, 0x65, 0x88, 0x84]
    );
}

#[test]
fn keeps_in_band_parameter_sets_and_rejects_bad_prefixes() {
    let converter = Mp4H264BitstreamConverter::new(2, vec![vec![0x67, 0x01]], vec![vec![0x68, 0x02]]).unwrap();
    let packet = [0, 2, 0x67, 0x09, 0, 2, 0x68, 0x08, 0, 1, 0x65];
    let mut out = vec![9, 9];
    converter.convert_packet(&packet, &mut out).unwrap();
    assert_eq!(out, vec![0, 0, 1, 0x67, 0x09, 0, 0, 1, 0x68, 0x08, 0, 0, 1, 0x65]);
    assert!(matches!(converter.convert_packet(&[0, 5, 1], &mut out), Err(RmpegError::UnexpectedEof { needed: 7, remaining: 3 })));
    assert!(Mp4H264BitstreamConverter::new(3, vec![vec![1]], vec![vec![2]]).is_err());
    assert!(Mp4H264BitstreamConverter::new(4, vec![], vec![vec![2]]).is_err());
}

#[test]
fn packs_yuv420p_with_strides_to_contiguous_planes() {
    let y = vec![1, 2, 3, 4, 99, 99, 5, 6, 7, 8, 99, 99];
    let u = vec![9, 10, 99];
    let v = vec![11, 12, 99];
    let image = Yuv420Picture { width: 4, height: 2, y_stride: 6, u_stride: 3, v_stride: 3, y: &y, u: &u, v: &v };

    let packed = pack_yuv420p(&image).unwrap();

    assert_eq!(packed, vec![1, 2, 3, 4, 5, 6, 7, 8, 9, 10, 11, 12]);
}

#[test]
fn pushes_picture_hashes_and_checks_dimensions() {
    let y = vec![1, 2, 3, 4];
    let u = vec![5];
    let v = vec![6];
    let image = Yuv420Picture { width: 2, height: 2, y_stride: 2, u_stride: 1, v_stride: 1, y: &y, u: &u, v: &v };
    let mut frames = Vec::new();
    push_yuv420p_frame_hash(&image, 2, 2, &mut frames).unwrap();
    push_yuv420p_frame_hash(&image, 2, 2, &mut frames).unwrap();
    assert_eq!(frames.len(), 2);
    assert_eq!(frames[1].pts, 1);
    assert_eq!(frames[1].size, 6);
    assert_eq!(frames[1].hash, md5_hex(&[1, 2, 3, 4, 5, 6]));
    assert!(matches!(push_yuv420p_frame_hash(&image, 4, 2, &mut frames), Err(RmpegError::Unsupported(_))));
    let odd = Yuv420Picture { width: 3, height: 2, y_stride: 3, u_stride: 1, v_stride: 1, y: &y, u: &u, v: &v };
    assert!(matches!(pack_yuv420p(&odd), Err(RmpegError::Unsupported(_))));
}

#[test]
fn lists_png_decoding_results() {
    let frames = png_listing(Ok(vec![1, 2, 3])).unwrap();
    assert_eq!(frames.len(), 1);
    assert_eq!(frames[0].size, 3);
    assert_eq!(frames[0].hash, md5_hex(&[1, 2, 3]));
    match png_listing(Err(Some("bad".to_string()))) {
        Err(RmpegError::InvalidData(message)) => assert_eq!(message, "bad"),
        other => panic!("unexpected {other:?}"),
    }
    assert!(matches!(png_listing(Err(None)), Err(RmpegError::InvalidData(_))));
}

#[test]
fn hashes_a_decoded_png_image() {
    let png = [
        0x89, 0x50, 0x4e, 0x47, 0x0d, 0x0a, 0x1a, 0x0a, 0x00, 0x00, 0x00, 0x0d, 0x49, 0x48, 0x44, 0x52, 0x00, 0x00,
        0x00, 0x01, 0x00, 0x00, 0x00, 0x01, 0x08, 0x00, 0x00, 0x00, 0x00, 0x3a, 0x7e, 0x9b, 0x55, 0x00, 0x00, 0x00,
        0x0a, 0x49, 0x44, 0x41, 0x54, 0x78, 0xda, 0x63, 0x60, 0x00, 0x00, 0x00, 0x02, 0x00, 0x01, 0xe5, 0x27, 0xde,
        0xfc, 0x00, 0x00, 0x00, 0x00, 0x49, 0x45, 0x4e, 0x44, 0xae, 0x42, 0x60, 0x82,
    ];
    let frames = png_image_frame_hashes(&png).unwrap();
    assert_eq!(frames.len(), 1);
    assert_eq!(frames[0].size, 1);
    assert_eq!(frames[0].hash, md5_hex(&[0]));
    assert!(matches!(png_image_frame_hashes(b"not a png"), Err(RmpegError::InvalidData(_))));
}

fn opus_head_packet(channels: u8, pre_skip: u16) -> Vec<u8> {
    let mut head = b"OpusHead".to_vec();
    head.push(1);
    head.push(channels);
    head.extend_from_slice(&pre_skip.to_le_bytes());
    head.extend_from_slice(&48_000_u32.to_le_bytes());
    head.extend_from_slice(&[0, 0, 0]);
    head
}

#[test]
fn routes_ogg_files_with_opus_headers_to_opus() {
    let mut input = ogg_page(0, &opus_head_packet(2, 312));
    assert!(is_ogg_opus(&input, Some("ogg")));
    assert!(is_ogg_opus(&input, Some("OGG")));
    assert!(!is_ogg_opus(&input, Some("opus")));
    assert!(!is_ogg_opus(&input, None));
    input = ogg_page(0, b"\x01vorbis");
    assert!(!is_ogg_opus(&input, Some("ogg")));
}

#[test]
fn reads_the_first_opus_head() {
    let packets = vec![b"junk".to_vec(), opus_head_packet(2, 312), opus_head_packet(1, 7)];
    assert_eq!(opus_head(&packets).unwrap(), OpusHead { channels: 2, pre_skip: 312 });
    assert!(matches!(opus_head(&[b"OpusTags".to_vec()]), Err(RmpegError::InvalidData(_))));
    let mut short = opus_head_packet(2, 0);
    short.truncate(18);
    assert!(matches!(opus_head(&[short]), Err(RmpegError::InvalidData(_))));
    assert!(matches!(opus_head(&[opus_head_packet(0, 0)]), Err(RmpegError::InvalidData(_))));
}

#[test]
fn skips_opus_header_packets() {
    assert!(!is_opus_audio_packet(b"OpusHead\x01\x02"));
    assert!(!is_opus_audio_packet(b"OpusTags"));
    assert!(is_opus_audio_packet(b"Opus"));
    assert!(is_opus_audio_packet(&[0xfc, 0xff, 0xfe]));
}

#[test]
fn trims_opus_pre_skip_and_duration() {
    let mut samples: Vec<i16> = (0..20).collect();
    trim_opus_samples(&mut samples, 2, 3, Some(7));
    assert_eq!(samples, vec![6, 7, 8, 9, 10, 11, 12, 13]);
    let mut samples: Vec<i16> = (0..20).collect();
    trim_opus_samples(&mut samples, 2, 3, None);
    assert_eq!(samples.len(), 14);
    let mut samples: Vec<i16> = (0..20).collect();
    trim_opus_samples(&mut samples, 2, 30, Some(100));
    assert!(samples.is_empty());
    let mut samples: Vec<i16> = (0..20).collect();
    trim_opus_samples(&mut samples, 0, 3, Some(1));
    assert_eq!(samples.len(), 20);
}

#[test]
fn keeps_decoded_audio_to_one_shape() {
    let shape = merge_packet_shape(empty_shape(), 44_100, 2).unwrap();
    assert_eq!(shape, DecodedShape { sample_rate: Some(44_100), channels: Some(2) });
    assert_eq!(merge_packet_shape(shape, 44_100, 2).unwrap(), shape);
    assert!(matches!(merge_packet_shape(shape, 48_000, 2), Err(RmpegError::Unsupported(_))));
    assert!(matches!(merge_packet_shape(shape, 44_100, 1), Err(RmpegError::Unsupported(_))));
    assert!(matches!(merge_packet_shape(empty_shape(), 8_000, 70_000), Err(RmpegError::Unsupported(_))));
    assert_eq!(finish_shape(shape).unwrap(), (44_100, 2));
    assert!(matches!(finish_shape(empty_shape()), Err(RmpegError::InvalidData(_))));
}

#[test]
fn lists_a_png_image_as_one_video_frame() {
    let png = [
        0x89, 0x50, 0x4e, 0x47, 0x0d, 0x0a, 0x1a, 0x0a, 0x00, 0x00, 0x00, 0x0d, 0x49, 0x48, 0x44, 0x52, 0x00, 0x00,
        0x00, 0x01, 0x00, 0x00, 0x00, 0x01, 0x08, 0x00, 0x00, 0x00, 0x00, 0x3a, 0x7e, 0x9b, 0x55, 0x00, 0x00, 0x00,
        0x0a, 0x49, 0x44, 0x41, 0x54, 0x78, 0xda, 0x63, 0x60, 0x00, 0x00, 0x00, 0x02, 0x00, 0x01, 0xe5, 0x27, 0xde,
        0xfc, 0x00, 0x00, 0x00, 0x00, 0x49, 0x45, 0x4e, 0x44, 0xae, 0x42, 0x60, 0x82,
    ];
    let document = png_image_frame_hash_document(&png).unwrap();
    assert_eq!((document.width, document.height), (1, 1));
    assert_eq!((document.frame_rate_num, document.frame_rate_den), (25, 1));
    assert_eq!(document.frames.len(), 1);
    assert_eq!(document.frames[0].hash, md5_hex(&[0]));
    assert!(matches!(png_image_frame_hash_document(b"not a png"), Err(RmpegError::InvalidData(_))));
}

#[test]
fn builds_h264_listings_from_decoded_pictures() {
    let y = vec![1, 2, 3, 4];
    let u = vec![5];
    let v = vec![6];
    let image = Yuv420Picture { width: 2, height: 2, y_stride: 2, u_stride: 1, v_stride: 1, y: &y, u: &u, v: &v };
    let copy = Yuv420Picture { width: 2, height: 2, y_stride: 2, u_stride: 1, v_stride: 1, y: &y, u: &u, v: &v };
    let document = mp4_h264_document_from(2, 2, 30, 1, &[image, copy]).unwrap();
    assert_eq!((document.width, document.height, document.frame_rate_num, document.frame_rate_den), (2, 2, 30, 1));
    assert_eq!(document.frames.len(), 2);
    assert_eq!(document.frames[1].pts, 1);
    assert_eq!(document.frames[0].hash, md5_hex(&[1, 2, 3, 4, 5, 6]));
    assert!(matches!(mp4_h264_document_from(2, 2, 30, 1, &[]), Err(RmpegError::InvalidData(_))));
    let image = Yuv420Picture { width: 2, height: 2, y_stride: 2, u_stride: 1, v_stride: 1, y: &y, u: &u, v: &v };
    assert!(matches!(mp4_h264_document_from(4, 2, 30, 1, &[image]), Err(RmpegError::Unsupported(_))));
}

#[test]
fn h264_decoding_needs_pictures_and_valid_parameters() {
    let data = |length_size: usize, sps: Vec<Vec<u8>>| H264SampleData {
        length_size,
        sps,
        pps: vec![vec![0x68, 0xce, 0x3c, 0x80]],
        samples: Vec::new(),
        width: 16,
        height: 16,
        frame_rate_num: 25,
        frame_rate_den: 1,
    };
    assert!(matches!(mp4_h264_frame_hashes(data(3, vec![vec![0x67]])), Err(RmpegError::InvalidData(_))));
    assert!(matches!(mp4_h264_frame_hashes(data(4, Vec::new())), Err(RmpegError::InvalidData(_))));
    match mp4_h264_frame_hashes(data(4, vec![vec![0x67, 0x42, 0x00, 0x0a]])) {
        Err(RmpegError::InvalidData(message)) => assert_eq!(message, "OpenH264 did not produce decoded frames"),
        other => panic!("unexpected {:?}", other.map(|document| document.frames.len())),
    }
}

#[test]
fn hands_decoder_errors_on_and_lists_decoded_audio() {
    let error = RmpegError::Unsupported("no decodable audio track".to_string());
    assert_eq!(compressed_audio_frame_hashes(Err(error.clone())), Err(error));
    let decoded = DecodedAudio { sample_rate: 8_000, channels: 1, samples: vec![1, 2, 3] };
    let document = compressed_audio_frame_hashes(Ok(decoded)).unwrap();
    assert_eq!(document.frames.len(), 1);
    let decoded = DecodedAudio { sample_rate: 8_000, channels: 2, samples: vec![1, 2, 3] };
    match compressed_audio_frame_hashes(Ok(decoded)) {
        Err(RmpegError::InvalidData(message)) => {
            assert_eq!(message, "decoded audio sample count is not channel-aligned")
        }
        other => panic!("unexpected {other:?}"),
    }
}
