use rmpeg::codec::bmp::bmp_image_frame_hashes;
use rmpeg::codec::dds::{dds_bc5_blue, dds_image_frame_hashes};
use rmpeg::codec::digest::md5_hex;
use rmpeg::codec::tga::tga_image_frame_hashes;

const BI_RGB: u32 = 0;
const BMP_PALETTE_BYTES: usize = 1024;
const DDS_HEADER_LEN: usize = 128;
const DDS_PALETTE_BYTES: usize = 1024;
const DDS_PIXEL_FORMAT_LEN: u32 = 32;
const DDPF_ALPHAPIXELS: u32 = 0x0000_0001;
const DDPF_ALPHA: u32 = 0x0000_0002;
const DDPF_FOURCC: u32 = 0x0000_0004;
const DDPF_PALETTEINDEXED8: u32 = 0x0000_0020;
const DDPF_RGB: u32 = 0x0000_0040;
const TGA_FOOTER_SIGNATURE: &[u8; 18] = b"TRUEVISION-XFILE.\0";

fn bmp_header(width: i32, height: i32, bits_per_pixel: u16, compression: u32, offset: u32) -> Vec<u8> {
    let mut bytes = Vec::new();
    bytes.extend_from_slice(b"BM");
    bytes.extend_from_slice(&0_u32.to_le_bytes());
    bytes.extend_from_slice(&0_u16.to_le_bytes());
    bytes.extend_from_slice(&0_u16.to_le_bytes());
    bytes.extend_from_slice(&offset.to_le_bytes());
    bytes.extend_from_slice(&40_u32.to_le_bytes());
    bytes.extend_from_slice(&width.to_le_bytes());
    bytes.extend_from_slice(&height.to_le_bytes());
    bytes.extend_from_slice(&1_u16.to_le_bytes());
    bytes.extend_from_slice(&bits_per_pixel.to_le_bytes());
    bytes.extend_from_slice(&compression.to_le_bytes());
    bytes.extend_from_slice(&0_u32.to_le_bytes());
    bytes.extend_from_slice(&0_i32.to_le_bytes());
    bytes.extend_from_slice(&0_i32.to_le_bytes());
    bytes.extend_from_slice(&0_u32.to_le_bytes());
    bytes.extend_from_slice(&0_u32.to_le_bytes());
    bytes
}

fn tga_header(width: u16, height: u16, image_type: u8, pixel_depth: u8, descriptor: u8) -> Vec<u8> {
    let mut bytes = vec![0; 18];
    bytes[2] = image_type;
    bytes[12..14].copy_from_slice(&width.to_le_bytes());
    bytes[14..16].copy_from_slice(&height.to_le_bytes());
    bytes[16] = pixel_depth;
    bytes[17] = descriptor;
    bytes
}

fn append_tga_footer(bytes: &mut Vec<u8>) {
    bytes.extend_from_slice(&[0; 8]);
    bytes.extend_from_slice(TGA_FOOTER_SIGNATURE);
}

fn dds_fixture(
    width: u32,
    height: u32,
    pixel_flags: u32,
    fourcc: [u8; 4],
    bits_per_pixel: u32,
    masks: [u32; 4],
    pitch_or_linear_size: u32,
) -> Vec<u8> {
    let mut bytes = vec![0_u8; DDS_HEADER_LEN];
    bytes[0..4].copy_from_slice(b"DDS ");
    bytes[4..8].copy_from_slice(&124_u32.to_le_bytes());
    bytes[12..16].copy_from_slice(&height.to_le_bytes());
    bytes[16..20].copy_from_slice(&width.to_le_bytes());
    bytes[20..24].copy_from_slice(&pitch_or_linear_size.to_le_bytes());
    bytes[76..80].copy_from_slice(&DDS_PIXEL_FORMAT_LEN.to_le_bytes());
    bytes[80..84].copy_from_slice(&pixel_flags.to_le_bytes());
    bytes[84..88].copy_from_slice(&fourcc);
    bytes[88..92].copy_from_slice(&bits_per_pixel.to_le_bytes());
    bytes[92..96].copy_from_slice(&masks[0].to_le_bytes());
    bytes[96..100].copy_from_slice(&masks[1].to_le_bytes());
    bytes[100..104].copy_from_slice(&masks[2].to_le_bytes());
    bytes[104..108].copy_from_slice(&masks[3].to_le_bytes());
    bytes
}

#[test]
fn hashes_bottom_up_bgr24_bmp_like_ffmpeg() {
    let mut input = bmp_header(2, 2, 24, BI_RGB, 54);
    input.extend_from_slice(&[0x01, 0x02, 0x03, 0x04, 0x05, 0x06, 0, 0]);
    input.extend_from_slice(&[0x10, 0x20, 0x30, 0x40, 0x50, 0x60, 0, 0]);

    let frames = bmp_image_frame_hashes(&input).expect("bmp frame hash");

    assert_eq!(frames[0].size, 12);
    assert_eq!(
        frames[0].hash,
        md5_hex(&[0x10, 0x20, 0x30, 0x40, 0x50, 0x60, 0x01, 0x02, 0x03, 0x04, 0x05, 0x06,])
    );
}

#[test]
fn hashes_indexed_bmp_with_ffmpeg_palette_layout() {
    let mut input = bmp_header(2, 1, 8, BI_RGB, 62);
    input.extend_from_slice(&[0x00, 0x00, 0x00, 0x00]);
    input.extend_from_slice(&[0x11, 0x22, 0x33, 0x00]);
    input.extend_from_slice(&[0x00, 0x01, 0x00, 0x00]);

    let frames = bmp_image_frame_hashes(&input).expect("bmp frame hash");
    let mut expected = vec![0x00, 0x01];
    expected.extend_from_slice(&[0x00, 0x00, 0x00, 0xff]);
    expected.extend_from_slice(&[0x11, 0x22, 0x33, 0xff]);
    expected.resize(2 + BMP_PALETTE_BYTES, 0);

    assert_eq!(frames[0].size, 2 + BMP_PALETTE_BYTES);
    assert_eq!(frames[0].hash, md5_hex(&expected));
}

#[test]
fn hashes_rle8_bmp_with_end_of_line_and_delta() {
    // 3x2 bottom-up: a run of two 5s on the bottom row, end of line, a literal 7 8 9.
    let mut input = bmp_header(3, 2, 8, 1, 54);
    input.extend_from_slice(&[0x02, 0x05, 0x00, 0x00, 0x00, 0x03, 0x07, 0x08, 0x09, 0x00, 0x00, 0x01]);

    let frames = bmp_image_frame_hashes(&input).expect("bmp frame hash");
    let mut expected = vec![0x07, 0x08, 0x09, 0x05, 0x05, 0x00];
    expected.resize(6 + BMP_PALETTE_BYTES, 0);
    assert_eq!(frames[0].size, expected.len());
    assert_eq!(frames[0].hash, md5_hex(&expected));
}

#[test]
fn hashes_two_concatenated_bmp_files_with_increasing_timestamps() {
    let mut one = bmp_header(1, 1, 24, BI_RGB, 54);
    one.extend_from_slice(&[0x01, 0x02, 0x03, 0x00]);
    let size = one.len() as u32;
    one[2..6].copy_from_slice(&size.to_le_bytes());
    let mut input = one.clone();
    input.extend_from_slice(&one);

    let frames = bmp_image_frame_hashes(&input).expect("bmp frame hashes");
    assert_eq!(frames.len(), 2);
    assert_eq!(frames[1].dts, 1);
    assert_eq!(frames[1].pts, 1);
    assert_eq!(frames[1].hash, md5_hex(&[0x01, 0x02, 0x03]));
}

#[test]
fn rejects_bmp_without_signature_and_empty_input() {
    let mut input = bmp_header(1, 1, 24, BI_RGB, 54);
    input[0] = b'X';
    input.extend_from_slice(&[0; 4]);
    let err = bmp_image_frame_hashes(&input).expect_err("signature");
    assert!(matches!(err, rmpeg::error::RmpegError::InvalidData(_)));
    assert!(bmp_image_frame_hashes(&[]).is_err());
}

#[test]
fn hashes_bottom_up_bgr24_tga_like_ffmpeg() {
    let mut input = tga_header(2, 2, 2, 24, 0);
    input.extend_from_slice(&[0x01, 0x02, 0x03, 0x04, 0x05, 0x06]);
    input.extend_from_slice(&[0x10, 0x20, 0x30, 0x40, 0x50, 0x60]);
    append_tga_footer(&mut input);

    let frames = tga_image_frame_hashes(&input).expect("tga frame hash");

    assert_eq!(frames[0].size, 12);
    assert_eq!(
        frames[0].hash,
        md5_hex(&[0x10, 0x20, 0x30, 0x40, 0x50, 0x60, 0x01, 0x02, 0x03, 0x04, 0x05, 0x06,])
    );
}

#[test]
fn hashes_rle_tga_like_ffmpeg() {
    let mut input = tga_header(3, 1, 11, 8, 0x20);
    input.extend_from_slice(&[0x81, 0x7f, 0x00, 0x20]);
    append_tga_footer(&mut input);

    let frames = tga_image_frame_hashes(&input).expect("tga frame hash");

    assert_eq!(frames[0].size, 3);
    assert_eq!(frames[0].hash, md5_hex(&[0x7f, 0x7f, 0x20]));
}

#[test]
fn rejects_tga_without_footer_signature() {
    let mut input = tga_header(1, 1, 3, 8, 0);
    input.push(0);
    input.extend_from_slice(&[0; 26]);
    let err = tga_image_frame_hashes(&input).expect_err("footer");
    assert!(matches!(err, rmpeg::error::RmpegError::InvalidData(_)));
}

#[test]
fn hashes_dds_alpha8_payload_like_ffmpeg() {
    let mut input = dds_fixture(2, 2, DDPF_ALPHA, *b"\0\0\0\0", 8, [0, 0, 0, 0xff], 4);
    input.extend_from_slice(&[0x10, 0x20, 0x30, 0x40]);

    let frames = dds_image_frame_hashes(&input).expect("dds frame hash");

    assert_eq!(frames[0].size, 4);
    assert_eq!(frames[0].hash, md5_hex(&[0x10, 0x20, 0x30, 0x40]));
}

#[test]
fn hashes_dds_bgra_base_level_and_ignores_mips_like_ffmpeg() {
    let mut input = dds_fixture(1, 1, DDPF_RGB | DDPF_ALPHAPIXELS, *b"\0\0\0\0", 32, [0xff0000, 0x00ff00, 0x0000ff, 0xff000000], 4);
    input.extend_from_slice(&[0x01, 0x02, 0x03, 0x04]);
    input.extend_from_slice(&[0xff; 16]);

    let frames = dds_image_frame_hashes(&input).expect("dds frame hash");

    assert_eq!(frames[0].size, 4);
    assert_eq!(frames[0].hash, md5_hex(&[0x01, 0x02, 0x03, 0x04]));
}

#[test]
fn hashes_dds_monob_payload_like_ffmpeg() {
    let mut input = dds_fixture(9, 1, DDPF_FOURCC, *b"G1  ", 0, [0, 0, 0, 0], 2);
    input.extend_from_slice(&[0x80, 0x40]);

    let frames = dds_image_frame_hashes(&input).expect("dds frame hash");

    assert_eq!(frames[0].size, 2);
    assert_eq!(frames[0].hash, md5_hex(&[0x80, 0x40]));
}

#[test]
fn hashes_dds_indexed_palette_like_ffmpeg() {
    let mut input = dds_fixture(2, 1, DDPF_PALETTEINDEXED8, *b"\0\0\0\0", 8, [0, 0, 0, 0], 2);
    let mut palette = vec![0; DDS_PALETTE_BYTES];
    palette[0..4].copy_from_slice(&[0x10, 0x20, 0x30, 0xff]);
    palette[4..8].copy_from_slice(&[0x40, 0x50, 0x60, 0x7f]);
    input.extend_from_slice(&palette);
    input.extend_from_slice(&[1, 0]);

    let frames = dds_image_frame_hashes(&input).expect("dds frame hash");

    let mut expected = vec![1, 0];
    expected.extend_from_slice(&[0x30, 0x20, 0x10, 0xff]);
    expected.extend_from_slice(&[0x60, 0x50, 0x40, 0x7f]);
    expected.resize(2 + DDS_PALETTE_BYTES, 0);
    assert_eq!(frames[0].size, expected.len());
    assert_eq!(frames[0].hash, md5_hex(&expected));
}

#[test]
fn hashes_dds_fourcc_p8_palette_like_ffmpeg() {
    let mut input = dds_fixture(1, 1, DDPF_FOURCC, *b"P8  ", 0, [0, 0, 0, 0], 1);
    let mut palette = vec![0; DDS_PALETTE_BYTES];
    palette[12..16].copy_from_slice(&[0x01, 0x02, 0x03, 0xff]);
    input.extend_from_slice(&palette);
    input.extend_from_slice(&[3]);

    let frames = dds_image_frame_hashes(&input).expect("dds frame hash");

    let mut expected = vec![3];
    expected.extend_from_slice(&[0; 12]);
    expected.extend_from_slice(&[0x03, 0x02, 0x01, 0xff]);
    expected.resize(1 + DDS_PALETTE_BYTES, 0);
    assert_eq!(frames[0].size, expected.len());
    assert_eq!(frames[0].hash, md5_hex(&expected));
}

#[test]
fn hashes_dds_aexp_like_ffmpeg() {
    let mut input = dds_fixture(1, 1, DDPF_RGB | DDPF_ALPHAPIXELS, *b"\0\0\0\0", 32, [0xff0000, 0x00ff00, 0x0000ff, 0xff000000], 4);
    input[44..48].copy_from_slice(b"AEXP");
    input.extend_from_slice(&[0x00, 0xff, 0x41, 0x79]);

    let frames = dds_image_frame_hashes(&input).expect("dds frame hash");

    assert_eq!(frames[0].size, 4);
    assert_eq!(frames[0].hash, md5_hex(&[0x00, 0x79, 0x1e, 0xff]));
}

#[test]
fn hashes_dds_ycocg_like_ffmpeg() {
    let mut input = dds_fixture(1, 1, DDPF_RGB | DDPF_ALPHAPIXELS, *b"\0\0\0\0", 32, [0xff0000, 0x00ff00, 0x0000ff, 0xff000000], 4);
    input[44..48].copy_from_slice(b"YCG1");
    input.extend_from_slice(&[0xff, 0xb5, 0x90, 0x44]);

    let frames = dds_image_frame_hashes(&input).expect("dds frame hash");

    assert_eq!(frames[0].size, 4);
    assert_eq!(frames[0].hash, md5_hex(&[0x1f, 0x79, 0x00, 0xff]));
}

#[test]
fn hashes_dds_bc1_block_like_ffmpeg() {
    let mut input = dds_fixture(4, 4, DDPF_FOURCC, *b"DXT1", 0, [0, 0, 0, 0], 8);
    let mut indices = 0_u32;
    for index in 0..16 {
        indices |= u32::try_from(index % 4).expect("small index") << (index * 2);
    }
    input.extend_from_slice(&0xf800_u16.to_le_bytes());
    input.extend_from_slice(&0x07e0_u16.to_le_bytes());
    input.extend_from_slice(&indices.to_le_bytes());

    let frames = dds_image_frame_hashes(&input).expect("dds frame hash");

    let colors = [[0xff, 0x00, 0x00, 0xff], [0x00, 0xff, 0x00, 0xff], [0xaa, 0x55, 0x00, 0xff], [0x55, 0xaa, 0x00, 0xff]];
    let mut expected = Vec::new();
    for index in 0..16 {
        expected.extend_from_slice(&colors[index % 4]);
    }
    assert_eq!(frames[0].size, expected.len());
    assert_eq!(frames[0].hash, md5_hex(&expected));
}

#[test]
fn hashes_dds_dxt2_unpremultiplied_like_ffmpeg() {
    let mut input = dds_fixture(4, 4, DDPF_FOURCC, *b"DXT2", 0, [0, 0, 0, 0], 16);
    let mut alpha_bits = 0_u64;
    for pixel in 1..16 {
        alpha_bits |= 7_u64 << (pixel * 4);
    }
    input.extend_from_slice(&alpha_bits.to_le_bytes());
    input.extend_from_slice(&0x0080_u16.to_le_bytes());
    input.extend_from_slice(&0x0080_u16.to_le_bytes());
    input.extend_from_slice(&0_u32.to_le_bytes());

    let frames = dds_image_frame_hashes(&input).expect("dds frame hash");

    let mut expected = Vec::new();
    expected.extend_from_slice(&[0x00, 0x10, 0x00, 0x00]);
    for _ in 1..16 {
        expected.extend_from_slice(&[0x00, 0x22, 0x00, 0x77]);
    }
    assert_eq!(frames[0].size, expected.len());
    assert_eq!(frames[0].hash, md5_hex(&expected));
}

#[test]
fn hashes_dds_dxt4_unpremultiplied_like_ffmpeg() {
    let mut input = dds_fixture(4, 4, DDPF_FOURCC, *b"DXT4", 0, [0, 0, 0, 0], 16);
    input.push(0x77);
    input.push(0x00);
    input.extend_from_slice(&1_u64.to_le_bytes()[..6]);
    input.extend_from_slice(&0x0080_u16.to_le_bytes());
    input.extend_from_slice(&0x0080_u16.to_le_bytes());
    input.extend_from_slice(&0_u32.to_le_bytes());

    let frames = dds_image_frame_hashes(&input).expect("dds frame hash");

    let mut expected = Vec::new();
    expected.extend_from_slice(&[0x00, 0x10, 0x00, 0x00]);
    for _ in 1..16 {
        expected.extend_from_slice(&[0x00, 0x22, 0x00, 0x77]);
    }
    assert_eq!(frames[0].size, expected.len());
    assert_eq!(frames[0].hash, md5_hex(&expected));
}

#[test]
fn hashes_dds_dxt1_normal_map_like_ffmpeg() {
    let mut input = dds_fixture(4, 4, DDPF_FOURCC | 0x8000_0000, *b"DXT1", 0, [0, 0, 0, 0], 8);
    input.extend_from_slice(&0x0080_u16.to_le_bytes());
    input.extend_from_slice(&0x0080_u16.to_le_bytes());
    input.extend_from_slice(&0_u32.to_le_bytes());

    let frames = dds_image_frame_hashes(&input).expect("dds frame hash");

    let mut expected = Vec::new();
    for _ in 0..16 {
        expected.extend_from_slice(&[0x00, 0x10, 0xb4, 0xff]);
    }
    assert_eq!(frames[0].size, expected.len());
    assert_eq!(frames[0].hash, md5_hex(&expected));
}

#[test]
fn hashes_dds_dxt5_xgbr_swizzle_like_ffmpeg() {
    let mut input = dds_fixture(4, 4, DDPF_FOURCC, *b"DXT5", u32::from_le_bytes(*b"xGBR"), [0, 0, 0, 0], 16);
    input.extend_from_slice(&[0x82, 0x00, 0, 0, 0, 0, 0, 0]);
    input.extend_from_slice(&0x001f_u16.to_le_bytes());
    input.extend_from_slice(&0x001f_u16.to_le_bytes());
    input.extend_from_slice(&0_u32.to_le_bytes());

    let frames = dds_image_frame_hashes(&input).expect("dds frame hash");

    let mut expected = Vec::new();
    for _ in 0..16 {
        expected.extend_from_slice(&[0xff, 0x00, 0x82, 0x00]);
    }
    assert_eq!(frames[0].size, expected.len());
    assert_eq!(frames[0].hash, md5_hex(&expected));
}

#[test]
fn hashes_dds_dxt5_ycocg_scaled_like_ffmpeg() {
    let mut input = dds_fixture(4, 4, DDPF_FOURCC, *b"DXT5", 0, [0, 0, 0, 0], 16);
    input[44..48].copy_from_slice(b"YCG2");
    input.extend_from_slice(&[0xff, 0x00, 0, 0, 0, 0, 0, 0]);
    input.extend_from_slice(&0x8421_u16.to_le_bytes());
    input.extend_from_slice(&0x8421_u16.to_le_bytes());
    input.extend_from_slice(&0_u32.to_le_bytes());

    let frames = dds_image_frame_hashes(&input).expect("dds frame hash");

    let mut expected = Vec::new();
    for _ in 0..16 {
        expected.extend_from_slice(&[0xfe, 0xff, 0xfa, 0xff]);
    }
    assert_eq!(frames[0].size, expected.len());
    assert_eq!(frames[0].hash, md5_hex(&expected));
}

#[test]
fn hashes_dds_bc4_unsigned_grayscale_like_ffmpeg() {
    let mut input = dds_fixture(4, 4, DDPF_FOURCC, *b"ATI1", 0, [0, 0, 0, 0], 8);
    let mut indices = 0_u64;
    for index in 0..16 {
        indices |= u64::try_from(index % 8).expect("small index") << (index * 3);
    }
    input.push(0xff);
    input.push(0x00);
    input.extend_from_slice(&indices.to_le_bytes()[..6]);

    let frames = dds_image_frame_hashes(&input).expect("dds frame hash");

    let values = [255, 0, 218, 182, 145, 109, 72, 36];
    let mut expected = Vec::new();
    for index in 0..16 {
        let value = values[index % 8];
        expected.extend_from_slice(&[value, value, value, 0xff]);
    }
    assert_eq!(frames[0].size, expected.len());
    assert_eq!(frames[0].hash, md5_hex(&expected));
}

#[test]
fn hashes_dds_bc4_signed_floor_interpolation_like_ffmpeg() {
    let mut input = dds_fixture(4, 4, DDPF_FOURCC, *b"BC4S", 0, [0, 0, 0, 0], 8);
    let mut indices = 0_u64;
    for pixel in 0..16 {
        indices |= 3_u64 << (pixel * 3);
    }
    input.push(0x80);
    input.push(0x81);
    input.extend_from_slice(&indices.to_le_bytes()[..6]);

    let frames = dds_image_frame_hashes(&input).expect("dds frame hash");

    let mut expected = Vec::new();
    for _ in 0..16 {
        expected.extend_from_slice(&[0x00, 0x00, 0x00, 0xff]);
    }
    assert_eq!(frames[0].size, expected.len());
    assert_eq!(frames[0].hash, md5_hex(&expected));
}

#[test]
fn hashes_dds_bc5_plain_ati2_swapped_like_ffmpeg() {
    let mut input = dds_fixture(4, 4, DDPF_FOURCC, *b"ATI2", 0, [0, 0, 0, 0], 16);
    input.extend_from_slice(&[0xff, 0x00, 0, 0, 0, 0, 0, 0]);
    input.extend_from_slice(&[0x00, 0x00, 0, 0, 0, 0, 0, 0]);

    let frames = dds_image_frame_hashes(&input).expect("dds frame hash");

    let mut expected = Vec::new();
    for _ in 0..16 {
        expected.extend_from_slice(&[0x00, 0xff, 0x7f, 0xff]);
    }
    assert_eq!(frames[0].size, expected.len());
    assert_eq!(frames[0].hash, md5_hex(&expected));
}

#[test]
fn hashes_dds_bc5_a2xy_order_like_ffmpeg() {
    let mut input = dds_fixture(4, 4, DDPF_FOURCC, *b"ATI2", u32::from_le_bytes(*b"A2XY"), [0, 0, 0, 0], 16);
    input.extend_from_slice(&[0x00, 0x00, 0, 0, 0, 0, 0, 0]);
    input.extend_from_slice(&[0x82, 0x00, 0, 0, 0, 0, 0, 0]);

    let frames = dds_image_frame_hashes(&input).expect("dds frame hash");

    let mut expected = Vec::new();
    for _ in 0..16 {
        expected.extend_from_slice(&[0x00, 0x82, 0x9b, 0xff]);
    }
    assert_eq!(frames[0].size, expected.len());
    assert_eq!(frames[0].hash, md5_hex(&expected));
}

#[test]
fn hashes_dds_bc5_signed_order_like_ffmpeg() {
    let mut input = dds_fixture(4, 4, DDPF_FOURCC, *b"BC5S", 0, [0, 0, 0, 0], 16);
    let mut red_indices = 0_u64;
    for pixel in 0..16 {
        red_indices |= 3_u64 << (pixel * 3);
    }
    input.push(0x80);
    input.push(0x81);
    input.extend_from_slice(&red_indices.to_le_bytes()[..6]);
    input.extend_from_slice(&[0x7f, 0x00, 0, 0, 0, 0, 0, 0]);

    let frames = dds_image_frame_hashes(&input).expect("dds frame hash");

    let mut expected = Vec::new();
    for _ in 0..16 {
        expected.extend_from_slice(&[0x00, 0xff, 0x7f, 0xff]);
    }
    assert_eq!(frames[0].size, expected.len());
    assert_eq!(frames[0].hash, md5_hex(&expected));
}

#[test]
fn reconstructs_dds_bc5_blue_like_ffmpeg() {
    assert_eq!(dds_bc5_blue(0, 130), 155);
    assert_eq!(dds_bc5_blue(18, 106), 163);
    assert_eq!(dds_bc5_blue(200, 100), 87);
    assert_eq!(dds_bc5_blue(255, 255), 127);
}

#[test]
fn rejects_dds_special_bgra_row_pitch() {
    let mut input = dds_fixture(1, 2, DDPF_RGB | DDPF_ALPHAPIXELS, *b"\0\0\0\0", 32, [0xff0000, 0x00ff00, 0x0000ff, 0xff000000], 4);
    input.extend_from_slice(&[0; 8]);

    let err = dds_image_frame_hashes(&input).expect_err("special pitch is unsupported");

    assert!(err.message().contains("unsupported DDS pixel format"));
}

#[test]
fn md5_hex_spells_the_known_digest_of_the_empty_input() {
    assert_eq!(md5_hex(&[]), "d41d8cd98f00b204e9800998ecf8427e");
    assert_eq!(md5_hex(b"abc"), "900150983cd24fb0d6963f7d28e17f72");
}

#[test]
fn names_the_offending_header_values() {
    let mut input = bmp_header(0, 1, 24, BI_RGB, 54);
    input.extend_from_slice(&[0; 4]);
    match bmp_image_frame_hashes(&input) {
        Err(rmpeg::error::RmpegError::InvalidData(message)) => assert_eq!(message, "invalid BMP width 0"),
        other => panic!("unexpected {other:?}"),
    }
    let mut input = bmp_header(-3, 1, 24, BI_RGB, 54);
    input.extend_from_slice(&[0; 4]);
    match bmp_image_frame_hashes(&input) {
        Err(rmpeg::error::RmpegError::InvalidData(message)) => assert_eq!(message, "invalid BMP width -3"),
        other => panic!("unexpected {other:?}"),
    }
    let mut input = tga_header(1, 1, 5, 8, 0);
    input.push(0);
    append_tga_footer(&mut input);
    match tga_image_frame_hashes(&input) {
        Err(rmpeg::error::RmpegError::Unsupported(message)) => assert_eq!(message, "unsupported TGA image type 5"),
        other => panic!("unexpected {other:?}"),
    }
    let mut input = tga_header(1, 1, 2, 12, 0);
    input.extend_from_slice(&[0, 0]);
    append_tga_footer(&mut input);
    match tga_image_frame_hashes(&input) {
        Err(rmpeg::error::RmpegError::InvalidData(message)) => assert_eq!(message, "unsupported TGA pixel depth 12"),
        other => panic!("unexpected {other:?}"),
    }
}
