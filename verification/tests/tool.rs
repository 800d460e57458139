use rmpeg::codec::audio::DecodedAudio;
use rmpeg::codec::digest::md5_hex;
use rmpeg::codec::pcm::{pcm_u8_to_s16le_bytes, WavFile, WavFormat};
use rmpeg::error::RmpegError;
use rmpeg::tool::{
    append_mp4_pcm_chunk, avi_chunk_stream_index, avi_movi_range, avi_pcm_frames, channel_layout_name,
    decimal_seconds_to_samples, decode_s16le_sample_bytes, decode_s24le_sample_bytes, decode_s32le_sample_bytes,
    decode_wav_samples, div_round_u128, mp4_pcm_frame_hash_document, padded_avi_chunk_end, parse_rate,
    read_u32_le_at, swr_edge_index, baseline_video_frame_hashes, skip_sample_frames, image_codec, ImageCodec, wav_pipe_bytes, yuv420p_frame_size, Mp4PcmChunk, Mp4PcmSampleData,
};

fn riff_chunk(id: &[u8], data: &[u8]) -> Vec<u8> {
    let mut bytes = Vec::new();
    bytes.extend_from_slice(id);
    bytes.extend_from_slice(&(data.len() as u32).to_le_bytes());
    bytes.extend_from_slice(data);
    if data.len() % 2 == 1 {
        bytes.push(0);
    }
    bytes
}

fn avi_with_movi(movi_chunks: &[u8]) -> Vec<u8> {
    let mut list = Vec::new();
    list.extend_from_slice(b"movi");
    list.extend_from_slice(movi_chunks);
    let mut body = Vec::new();
    body.extend_from_slice(b"AVI ");
    body.extend_from_slice(&riff_chunk(b"JUNK", &[0; 3]));
    body.extend_from_slice(&riff_chunk(b"LIST", &list));
    let mut bytes = Vec::new();
    bytes.extend_from_slice(b"RIFF");
    bytes.extend_from_slice(&(body.len() as u32).to_le_bytes());
    bytes.extend_from_slice(&body);
    bytes
}

#[test]
fn decimal_seek_uses_audio_time_base_samples() {
    assert_eq!(decimal_seconds_to_samples("0.1", 44_100).unwrap(), 4_410);
    assert_eq!(decimal_seconds_to_samples(".25", 48_000).unwrap(), 12_000);
}

#[test]
fn rejects_malformed_start_times() {
    assert!(matches!(decimal_seconds_to_samples("-1", 48_000), Err(RmpegError::Usage(_))));
    assert!(matches!(decimal_seconds_to_samples(".", 48_000), Err(RmpegError::Usage(_))));
    assert!(matches!(decimal_seconds_to_samples("1.5s", 48_000), Err(RmpegError::Usage(_))));
    assert!(matches!(decimal_seconds_to_samples("", 48_000), Err(RmpegError::Usage(_))));
    assert_eq!(decimal_seconds_to_samples(" 2 ", 8_000).unwrap(), 16_000);
    assert_eq!(decimal_seconds_to_samples("1.", 8_000).unwrap(), 8_000);
    let precise = format!("0.{}", "0".repeat(40));
    assert!(matches!(decimal_seconds_to_samples(&precise, 8_000), Err(RmpegError::Usage(_))));
}

#[test]
fn framemd5_header_uses_ffmpeg_channel_layout_names() {
    assert_eq!(channel_layout_name(1), Some("mono"));
    assert_eq!(channel_layout_name(2), Some("stereo"));
    assert_eq!(channel_layout_name(6), None);
}

#[test]
fn decodes_raw_s16le_sample_bytes() {
    assert_eq!(decode_s16le_sample_bytes(&[0x01, 0x00, 0x00, 0x80, 0xff, 0x7f]).unwrap(), vec![1, i16::MIN, i16::MAX]);
    assert!(decode_s16le_sample_bytes(&[0x01]).is_err());
}

#[test]
fn decodes_wide_little_endian_pcm_to_s16() {
    assert_eq!(
        decode_s24le_sample_bytes(&[0x00, 0x00, 0x00, 0x00, 0x80, 0x00, 0x00, 0x00, 0x80, 0xff, 0xff, 0x7f]).unwrap(),
        vec![0, 128, i16::MIN, i16::MAX]
    );
    assert_eq!(
        decode_s32le_sample_bytes(&[
            0x00, 0x00, 0x00, 0x00, 0x00, 0x00, 0x01, 0x00, 0x00, 0x00, 0x00, 0x80, 0xff, 0xff, 0xff, 0x7f
        ])
        .unwrap(),
        vec![0, 1, i16::MIN, i16::MAX]
    );
    assert!(decode_s24le_sample_bytes(&[0x00]).is_err());
    assert!(decode_s32le_sample_bytes(&[0x00, 0x00]).is_err());
}

#[test]
fn avi_stream_chunk_ids_are_decimal_with_audio_suffix() {
    assert_eq!(avi_chunk_stream_index(b"01wb", b"wb"), Some(1));
    assert_eq!(avi_chunk_stream_index(b"12wb", b"wb"), Some(12));
    assert_eq!(avi_chunk_stream_index(b"01dc", b"wb"), None);
    assert_eq!(avi_chunk_stream_index(b"A1wb", b"wb"), None);
}

#[test]
fn converts_avi_unsigned_pcm_to_signed_s16le() {
    assert_eq!(pcm_u8_to_s16le_bytes(&[0x00, 0x80, 0xff]), vec![0x00, 0x80, 0x00, 0x00, 0x00, 0x7f]);
}

#[test]
fn converts_mp4_pcm_chunks_to_signed_s16le() {
    let mut output = Vec::new();
    append_mp4_pcm_chunk(&mut output, "pcm_s16be", &[0x80, 0x00, 0x7f, 0xff]).unwrap();
    assert_eq!(output, vec![0x00, 0x80, 0xff, 0x7f]);
    output.clear();
    append_mp4_pcm_chunk(&mut output, "pcm_s24le", &[0x00, 0x00, 0x80, 0xff, 0xff, 0x7f]).unwrap();
    assert_eq!(output, vec![0x00, 0x80, 0xff, 0x7f]);
    assert!(append_mp4_pcm_chunk(&mut output, "pcm_s16be", &[0]).is_err());
}

#[test]
fn rejects_unknown_mp4_pcm_codecs() {
    let mut output = Vec::new();
    assert!(matches!(append_mp4_pcm_chunk(&mut output, "pcm_f32le", &[0, 0, 0, 0]), Err(RmpegError::Unsupported(_))));
    append_mp4_pcm_chunk(&mut output, "pcm_u8", &[0x80]).unwrap();
    assert_eq!(output, vec![0x00, 0x00]);
}

#[test]
fn resampler_reflects_edges_like_ffmpeg_swr() {
    assert_eq!(swr_edge_index(-2, 5), 2);
    assert_eq!(swr_edge_index(-1, 5), 1);
    assert_eq!(swr_edge_index(0, 5), 0);
    assert_eq!(swr_edge_index(5, 5), 4);
    assert_eq!(swr_edge_index(6, 5), 3);
}

#[test]
fn reflects_far_edges() {
    assert_eq!(swr_edge_index(-9, 5), 1);
    assert_eq!(swr_edge_index(20, 5), 0);
    assert_eq!(swr_edge_index(3, 1), 0);
}

#[test]
fn wav_pipe_header_matches_ffmpeg_stdout_shape() {
    let decoded = DecodedAudio { sample_rate: 44_100, channels: 2, samples: vec![0, 0, 136, 136] };
    let bytes = wav_pipe_bytes(&decoded).unwrap();
    assert_eq!(&bytes[0..4], b"RIFF");
    assert_eq!(&bytes[4..8], &u32::MAX.to_le_bytes());
    assert_eq!(&bytes[70..74], b"data");
    assert_eq!(&bytes[74..78], &u32::MAX.to_le_bytes());
    assert_eq!(bytes.len(), 86);
}

#[test]
fn wav_pipe_writes_format_fields() {
    let decoded = DecodedAudio { sample_rate: 8_000, channels: 1, samples: vec![1] };
    let bytes = wav_pipe_bytes(&decoded).unwrap();
    assert_eq!(&bytes[22..24], &1_u16.to_le_bytes());
    assert_eq!(&bytes[24..28], &8_000_u32.to_le_bytes());
    assert_eq!(&bytes[28..32], &16_000_u32.to_le_bytes());
    assert_eq!(&bytes[78..80], &[1, 0]);
    let empty = DecodedAudio { sample_rate: 8_000, channels: 0, samples: vec![] };
    assert!(matches!(wav_pipe_bytes(&empty), Err(RmpegError::InvalidData(_))));
}

#[test]
fn parses_rates_and_frame_sizes() {
    assert_eq!(parse_rate("10/1"), Some((10, 1)));
    assert_eq!(parse_rate("30000/1001"), Some((30000, 1001)));
    assert_eq!(parse_rate("0/1"), None);
    assert_eq!(parse_rate("25"), None);
    assert_eq!(yuv420p_frame_size(64, 48).unwrap(), 4_608);
    assert_eq!(div_round_u128(7, 2).unwrap(), 4);
    assert!(div_round_u128(7, 0).is_err());
    assert_eq!(padded_avi_chunk_end(7).unwrap(), 8);
    assert!(padded_avi_chunk_end(usize::MAX).is_err());
    assert_eq!(read_u32_le_at(&[1, 0, 0, 0, 9], 0).unwrap(), 1);
    assert!(matches!(read_u32_le_at(&[1, 0, 0], 0), Err(RmpegError::UnexpectedEof { needed: 4, remaining: 3 })));
}

#[test]
fn decodes_wav_sample_data() {
    let mut input = vec![0_u8; 4];
    input.extend_from_slice(&[0x00, 0x80, 0xff]);
    let wav = WavFile {
        metadata: WavFormat { sample_rate: 8_000, channels: 1, block_align: 1, bits_per_sample: 8 },
        data_offset: 4,
        data_size: 3,
    };
    let decoded = decode_wav_samples(&input, &wav).unwrap();
    assert_eq!(decoded.samples, vec![-32768, 0, 32512]);
    assert_eq!(decoded.sample_rate, 8_000);
    let mut wide = wav;
    wide.metadata.bits_per_sample = 16;
    assert!(decode_wav_samples(&input, &wide).is_err());
}

#[test]
fn lists_avi_pcm_audio_chunks() {
    let mut movi = Vec::new();
    movi.extend_from_slice(&riff_chunk(b"00dc", &[1, 2, 3, 4]));
    movi.extend_from_slice(&riff_chunk(b"01wb", &[0x80, 0x81, 0x82]));
    let input = avi_with_movi(&movi);
    let (start, end) = avi_movi_range(&input).unwrap();
    assert_eq!(end - start, movi.len());
    let frames = avi_pcm_frames(&input, 1, "pcm_u8", 1).unwrap();
    assert_eq!(frames.len(), 1);
    assert_eq!(frames[0].duration, 3);
    assert_eq!(frames[0].size, 6);
    assert_eq!(frames[0].hash, md5_hex(&[0x00, 0x00, 0x00, 0x01, 0x00, 0x02]));
    assert!(matches!(avi_pcm_frames(&input, 1, "pcm_alaw", 1), Err(RmpegError::Unsupported(_))));
    assert!(matches!(avi_movi_range(b"RIFF\0\0\0\0WAVE"), Err(RmpegError::InvalidData(_))));
}

#[test]
fn lists_mp4_pcm_chunks_in_pieces() {
    let data = Mp4PcmSampleData {
        sample_rate: 8_000,
        channels: 1,
        codec_name: "pcm_s16le".to_string(),
        chunks: vec![Mp4PcmChunk { duration: 2, data: vec![1, 0, 2, 0] }, Mp4PcmChunk { duration: 1, data: vec![3, 0] }],
    };
    let document = mp4_pcm_frame_hash_document(data).unwrap();
    assert_eq!(document.frames.len(), 2);
    assert_eq!(document.frames[1].pts, 2);
    assert_eq!(document.frames[1].hash, md5_hex(&[3, 0]));
    let silent_tail = Mp4PcmSampleData {
        sample_rate: 8_000,
        channels: 1,
        codec_name: "pcm_s16be".to_string(),
        chunks: vec![Mp4PcmChunk { duration: 1, data: vec![0, 5] }, Mp4PcmChunk { duration: 1, data: vec![0, 0] }],
    };
    assert_eq!(mp4_pcm_frame_hash_document(silent_tail).unwrap().frames.len(), 1);
    let mismatched = Mp4PcmSampleData {
        sample_rate: 8_000,
        channels: 1,
        codec_name: "pcm_s16le".to_string(),
        chunks: vec![Mp4PcmChunk { duration: 3, data: vec![1, 0] }],
    };
    assert!(matches!(mp4_pcm_frame_hash_document(mismatched), Err(RmpegError::InvalidData(_))));
}

#[test]
fn lists_black_frames_for_undecoded_video() {
    let document = baseline_video_frame_hashes(4, 2, (10, 1), 3).unwrap();
    assert_eq!((document.width, document.height), (4, 2));
    assert_eq!((document.frame_rate_num, document.frame_rate_den), (10, 1));
    assert_eq!(document.frames.len(), 3);
    let hash = md5_hex(&[0; 12]);
    for (index, frame) in document.frames.iter().enumerate() {
        assert_eq!(frame.pts, index as u64);
        assert_eq!(frame.dts, index as u64);
        assert_eq!(frame.duration, 1);
        assert_eq!(frame.size, 12);
        assert_eq!(frame.hash, hash);
    }
    assert!(baseline_video_frame_hashes(4, 2, (25, 1), 0).unwrap().frames.is_empty());
    assert!(matches!(
        baseline_video_frame_hashes(u32::MAX, u32::MAX, (25, 1), 1),
        Err(RmpegError::InvalidData(_))
    ));
}

#[test]
fn seeks_by_whole_sample_frames() {
    let decoded = DecodedAudio { sample_rate: 8_000, channels: 2, samples: vec![1, 2, 3, 4, 5, 6] };
    let rest = skip_sample_frames(decoded.clone(), 1);
    assert_eq!(rest.samples, vec![3, 4, 5, 6]);
    assert_eq!((rest.sample_rate, rest.channels), (8_000, 2));
    assert!(skip_sample_frames(decoded.clone(), 5).samples.is_empty());
    assert!(skip_sample_frames(decoded.clone(), usize::MAX).samples.is_empty());
    assert_eq!(skip_sample_frames(decoded, 0).samples.len(), 6);
}

#[test]
fn picks_image_decoders_by_extension() {
    assert_eq!(image_codec(Some("bmp")), ImageCodec::Bmp);
    assert_eq!(image_codec(Some("DDS")), ImageCodec::Dds);
    assert_eq!(image_codec(Some("dpx")), ImageCodec::Dpx);
    assert_eq!(image_codec(Some("fit")), ImageCodec::Fits);
    assert_eq!(image_codec(Some("Fits")), ImageCodec::Fits);
    assert_eq!(image_codec(Some("fts")), ImageCodec::Fits);
    assert_eq!(image_codec(Some("pbm")), ImageCodec::Pnm);
    assert_eq!(image_codec(Some("PGM")), ImageCodec::Pnm);
    assert_eq!(image_codec(Some("pnm")), ImageCodec::Pnm);
    assert_eq!(image_codec(Some("ppm")), ImageCodec::Pnm);
    assert_eq!(image_codec(Some("pix")), ImageCodec::Pix);
    assert_eq!(image_codec(Some("ptx")), ImageCodec::Ptx);
    assert_eq!(image_codec(Some("ras")), ImageCodec::Sunrast);
    assert_eq!(image_codec(Some("sun")), ImageCodec::Sunrast);
    assert_eq!(image_codec(Some("sgi")), ImageCodec::Sgi);
    assert_eq!(image_codec(Some("tga")), ImageCodec::Tga);
    assert_eq!(image_codec(Some("xbm")), ImageCodec::Xbm);
    assert_eq!(image_codec(Some("png")), ImageCodec::Png);
    assert_eq!(image_codec(Some("bmpx")), ImageCodec::Png);
    assert_eq!(image_codec(None), ImageCodec::Png);
}
