use rmpeg::codec::alias_pix::alias_pix_image_frame_hashes;
use rmpeg::codec::brender_pix::{brender_pix_default_palette, brender_pix_image_frame_hashes};
use rmpeg::codec::digest::md5_hex;
use rmpeg::codec::dpx::{dpx_image_frame_hashes, dpx_stored_row_bytes};
use rmpeg::codec::fits::{fits_frame, fits_header, fits_samples, FitsSample};
use rmpeg::codec::pnm::pnm_image_frame_hashes;
use rmpeg::codec::ptx::ptx_image_frame_hashes;
use rmpeg::codec::sgi::sgi_image_frame_hashes;
use rmpeg::codec::sunrast::sunrast_image_frame_hashes;
use rmpeg::codec::xbm::{reverse_bits, xbm_image_frame_hashes};
use rmpeg::error::RmpegError;

const BMP_PALETTE_BYTES: usize = 1024;
const BRENDER_PIX_DATA_OFFSET: usize = 54;
const BRENDER_PIX_INDEX_MARKER: &[u8; 13] = b"\x21\x00\x01\x00\x08\x00\x01\x00\x00\x00\x00\x00\x01";
const BRENDER_PIX_PALETTE_MARKER: &[u8; 14] = b"\x21\x00\x00\x04\x08\x00\x00\x01\x00\x00\x00\x00\x04\x00";
const DPX_HEADER_MIN_LEN: usize = 812;
const DPX_DESCRIPTOR_RGB: u8 = 50;
const FITS_CARD_LEN: usize = 80;
const FITS_BLOCK_LEN: usize = 2880;
const PTX_HEADER_LEN: usize = 44;
const SUNRAST_MAGIC: &[u8; 4] = b"\x59\xa6\x6a\x95";
const SUNRAST_TYPE_STANDARD: u32 = 1;
const SUNRAST_TYPE_BYTE_ENCODED: u32 = 2;
const SUNRAST_MAP_NONE: u32 = 0;
const SUNRAST_MAP_RGB: u32 = 1;
const SGI_HEADER_LEN: usize = 512;
const SGI_STORAGE_VERBATIM: u8 = 0;
const SGI_STORAGE_RLE: u8 = 1;

fn sunrast_header(width: u32, height: u32, depth: u32, raster_type: u32, map_type: u32, map_len: u32) -> Vec<u8> {
    let mut bytes = Vec::new();
    bytes.extend_from_slice(SUNRAST_MAGIC);
    bytes.extend_from_slice(&width.to_be_bytes());
    bytes.extend_from_slice(&height.to_be_bytes());
    bytes.extend_from_slice(&depth.to_be_bytes());
    bytes.extend_from_slice(&0_u32.to_be_bytes());
    bytes.extend_from_slice(&raster_type.to_be_bytes());
    bytes.extend_from_slice(&map_type.to_be_bytes());
    bytes.extend_from_slice(&map_len.to_be_bytes());
    bytes
}

fn dpx_header(big_endian: bool, width: u32, height: u32, bit_depth: u8, packing: u16) -> Vec<u8> {
    let mut bytes = vec![0_u8; DPX_HEADER_MIN_LEN];
    let stored_row_bytes = dpx_stored_row_bytes(width as usize, bit_depth, packing).expect("row bytes");
    let file_size = DPX_HEADER_MIN_LEN + stored_row_bytes * height as usize;
    if big_endian {
        bytes[0..4].copy_from_slice(b"SDPX");
        bytes[4..8].copy_from_slice(&(DPX_HEADER_MIN_LEN as u32).to_be_bytes());
        bytes[16..20].copy_from_slice(&(file_size as u32).to_be_bytes());
        bytes[770..772].copy_from_slice(&1_u16.to_be_bytes());
        bytes[772..776].copy_from_slice(&width.to_be_bytes());
        bytes[776..780].copy_from_slice(&height.to_be_bytes());
        bytes[804..806].copy_from_slice(&packing.to_be_bytes());
    } else {
        bytes[0..4].copy_from_slice(b"XPDS");
        bytes[4..8].copy_from_slice(&(DPX_HEADER_MIN_LEN as u32).to_le_bytes());
        bytes[16..20].copy_from_slice(&(file_size as u32).to_le_bytes());
        bytes[770..772].copy_from_slice(&1_u16.to_le_bytes());
        bytes[772..776].copy_from_slice(&width.to_le_bytes());
        bytes[776..780].copy_from_slice(&height.to_le_bytes());
        bytes[804..806].copy_from_slice(&packing.to_le_bytes());
    }
    bytes[800] = DPX_DESCRIPTOR_RGB;
    bytes[803] = bit_depth;
    bytes
}

fn ptx_header(width: u16, height: u16) -> Vec<u8> {
    let mut bytes = vec![0_u8; PTX_HEADER_LEN];
    bytes[0..4].copy_from_slice(&(PTX_HEADER_LEN as u32).to_le_bytes());
    bytes[8..10].copy_from_slice(&width.to_le_bytes());
    bytes[10..12].copy_from_slice(&height.to_le_bytes());
    bytes
}

fn brender_pix_fixture(pixel_format: [u8; 4], width: u16, height: u16) -> Vec<u8> {
    let mut bytes = vec![0_u8; BRENDER_PIX_DATA_OFFSET];
    bytes[0..4].copy_from_slice(&[0, 0, 0, 0x12]);
    bytes[4..8].copy_from_slice(&[0, 0, 0, 8]);
    bytes[8..12].copy_from_slice(&[0, 0, 0, 2]);
    bytes[12..16].copy_from_slice(&[0, 0, 0, 2]);
    bytes[24..28].copy_from_slice(&pixel_format);
    bytes[28..30].copy_from_slice(&width.to_le_bytes());
    bytes[30..32].copy_from_slice(&height.to_le_bytes());
    bytes
}

fn brender_pix_paletted_fixture(width: u16, height: u16) -> Vec<u8> {
    let mut bytes = brender_pix_fixture([0x03, 0x01, 0x00, 0x01], width, 0);
    bytes[26..28].copy_from_slice(&height.to_le_bytes());
    bytes
}

fn fits_card(key: &str, value: &str) -> [u8; FITS_CARD_LEN] {
    let mut card = [b' '; FITS_CARD_LEN];
    card[..key.len()].copy_from_slice(key.as_bytes());
    card[8] = b'=';
    card[10..10 + value.len()].copy_from_slice(value.as_bytes());
    card
}

fn fits_file(cards: &[(&str, &str)]) -> Vec<u8> {
    let mut bytes = Vec::new();
    bytes.extend_from_slice(&fits_card("SIMPLE", "T"));
    for (key, value) in cards {
        bytes.extend_from_slice(&fits_card(key, value));
    }
    let mut end = [b' '; FITS_CARD_LEN];
    end[..3].copy_from_slice(b"END");
    bytes.extend_from_slice(&end);
    bytes.resize(bytes.len().div_ceil(FITS_BLOCK_LEN) * FITS_BLOCK_LEN, b' ');
    bytes
}

fn gray16le(values: &[u16]) -> Vec<u8> {
    let mut bytes = Vec::with_capacity(values.len() * 2);
    for value in values {
        bytes.extend_from_slice(&value.to_le_bytes());
    }
    bytes
}

fn sgi_header(storage: u8, bytes_per_channel: u8, width: u16, height: u16, channels: u16) -> Vec<u8> {
    let mut bytes = vec![0_u8; SGI_HEADER_LEN];
    bytes[0..2].copy_from_slice(b"\x01\xda");
    bytes[2] = storage;
    bytes[3] = bytes_per_channel;
    let dimensions = if channels == 1 { 2_u16 } else { 3_u16 };
    bytes[4..6].copy_from_slice(&dimensions.to_be_bytes());
    bytes[6..8].copy_from_slice(&width.to_be_bytes());
    bytes[8..10].copy_from_slice(&height.to_be_bytes());
    bytes[10..12].copy_from_slice(&channels.to_be_bytes());
    bytes
}

#[test]
fn hashes_x11_byte_xbm_like_ffmpeg() {
    let input = b"#define image_width 8\n#define image_height 1\nstatic unsigned char image_bits[] = { 0x22 };\n";
    let frames = xbm_image_frame_hashes(input).expect("xbm frame hash");

    assert_eq!(frames[0].size, 1);
    assert_eq!(frames[0].hash, md5_hex(&[0x44]));
}

#[test]
fn hashes_x10_short_xbm_like_ffmpeg() {
    let input = b"#define xlogo16_width 16\n#define xlogo16_height 1\nstatic unsigned short xlogo16_bits[] = { 0x0f80 };\n";
    let frames = xbm_image_frame_hashes(input).expect("xbm frame hash");

    assert_eq!(frames[0].size, 2);
    assert_eq!(frames[0].hash, md5_hex(&[0xf0, 0x01]));
}

#[test]
fn hashes_24_bit_alias_pix_rle_like_ffmpeg() {
    let input = [
        0x00, 0x03, 0x00, 0x01, 0, 0, 0, 0, 0x00, 0x18, 0x02, 0x10, 0x20, 0x30, 0x01, 0x40, 0x50, 0x60,
    ];
    let frames = alias_pix_image_frame_hashes(&input).expect("alias pix frame hash");

    assert_eq!(frames[0].size, 9);
    assert_eq!(frames[0].hash, md5_hex(&[0x10, 0x20, 0x30, 0x10, 0x20, 0x30, 0x40, 0x50, 0x60]));
}

#[test]
fn hashes_8_bit_alias_pix_rle_like_ffmpeg() {
    let input = [0x00, 0x04, 0x00, 0x01, 0, 0, 0, 0, 0x00, 0x08, 0x01, 0xaa, 0x03, 0x55];
    let frames = alias_pix_image_frame_hashes(&input).expect("alias pix frame hash");

    assert_eq!(frames[0].size, 4);
    assert_eq!(frames[0].hash, md5_hex(&[0xaa, 0x55, 0x55, 0x55]));
}

#[test]
fn hashes_paletted_sunrast_like_ffmpeg() {
    let mut input = sunrast_header(2, 1, 8, SUNRAST_TYPE_STANDARD, SUNRAST_MAP_RGB, 6);
    input.extend_from_slice(&[0x30, 0x70, 0x20, 0x60, 0x10, 0x50]);
    input.extend_from_slice(&[0x00, 0x01]);

    let frames = sunrast_image_frame_hashes(&input).expect("sunrast frame hash");
    let mut expected = vec![0x00, 0x01];
    expected.extend_from_slice(&[0x10, 0x20, 0x30, 0xff]);
    expected.extend_from_slice(&[0x50, 0x60, 0x70, 0xff]);
    expected.resize(2 + BMP_PALETTE_BYTES, 0);

    assert_eq!(frames[0].size, 2 + BMP_PALETTE_BYTES);
    assert_eq!(frames[0].hash, md5_hex(&expected));
}

#[test]
fn hashes_rle_sunrast_like_ffmpeg() {
    let mut input = sunrast_header(4, 1, 8, SUNRAST_TYPE_BYTE_ENCODED, SUNRAST_MAP_NONE, 0);
    input.extend_from_slice(&[0x80, 0x02, 0x55, 0x80, 0x00]);

    let frames = sunrast_image_frame_hashes(&input).expect("sunrast frame hash");

    assert_eq!(frames[0].size, 4);
    assert_eq!(frames[0].hash, md5_hex(&[0x55, 0x55, 0x55, 0x80]));
}

#[test]
fn hashes_8_bit_dpx_without_row_padding_like_ffmpeg() {
    let mut input = dpx_header(false, 2, 1, 8, 0);
    input.extend_from_slice(&[0x10, 0x20, 0x30, 0x40, 0x50, 0x60, 0xaa, 0xbb]);

    let frames = dpx_image_frame_hashes(&input).expect("dpx frame hash");

    assert_eq!(frames[0].size, 6);
    assert_eq!(frames[0].hash, md5_hex(&[0x10, 0x20, 0x30, 0x40, 0x50, 0x60]));
}

#[test]
fn hashes_10_bit_dpx_as_planar_gbrp10le_like_ffmpeg() {
    let mut input = dpx_header(false, 1, 1, 10, 1);
    let word = (1_u32 << 22) | (2_u32 << 12) | (3_u32 << 2);
    input.extend_from_slice(&word.to_le_bytes());

    let frames = dpx_image_frame_hashes(&input).expect("dpx frame hash");

    assert_eq!(frames[0].size, 6);
    assert_eq!(frames[0].hash, md5_hex(&[0x02, 0x00, 0x03, 0x00, 0x01, 0x00]));
}

#[test]
fn hashes_concatenated_dpx_frames_like_ffmpeg() {
    let mut input = dpx_header(false, 1, 1, 8, 0);
    input.extend_from_slice(&[0x10, 0x20, 0x30, 0x00]);
    input.extend_from_slice(&dpx_header(false, 1, 1, 8, 0));
    input.extend_from_slice(&[0x40, 0x50, 0x60, 0x00]);

    let frames = dpx_image_frame_hashes(&input).expect("dpx frame hash");

    assert_eq!(frames.len(), 2);
    assert_eq!(frames[0].hash, md5_hex(&[0x10, 0x20, 0x30]));
    assert_eq!(frames[1].dts, 1);
    assert_eq!(frames[1].hash, md5_hex(&[0x40, 0x50, 0x60]));
}

#[test]
fn hashes_binary_pbm_like_ffmpeg() {
    let input = b"P4\n8 1\n\x80";
    let frames = pnm_image_frame_hashes(input).expect("pbm frame hash");

    assert_eq!(frames[0].size, 1);
    assert_eq!(frames[0].hash, md5_hex(&[0x80]));
}

#[test]
fn hashes_binary_pgm_like_ffmpeg() {
    let input = b"P5\n2 1\n255\n\x00\xff";
    let frames = pnm_image_frame_hashes(input).expect("pgm frame hash");

    assert_eq!(frames[0].size, 2);
    assert_eq!(frames[0].hash, md5_hex(&[0x00, 0xff]));
}

#[test]
fn hashes_16_bit_pgm_as_little_endian_like_ffmpeg() {
    let input = b"P5\n2 1\n65535\n\x00\x01\xff\xff";
    let frames = pnm_image_frame_hashes(input).expect("pgm frame hash");

    assert_eq!(frames[0].size, 4);
    assert_eq!(frames[0].hash, md5_hex(&[0x01, 0x00, 0xff, 0xff]));
}

#[test]
fn hashes_binary_ppm_like_ffmpeg() {
    let input = b"P6\n2 1\n255\n\x01\x02\x03\x04\x05\x06";
    let frames = pnm_image_frame_hashes(input).expect("ppm frame hash");

    assert_eq!(frames[0].size, 6);
    assert_eq!(frames[0].hash, md5_hex(&[0x01, 0x02, 0x03, 0x04, 0x05, 0x06]));
}

#[test]
fn hashes_ptx_payload_like_ffmpeg() {
    let mut input = ptx_header(2, 1);
    input.extend_from_slice(&[0x11, 0x22, 0x33, 0x44]);
    let frames = ptx_image_frame_hashes(&input).expect("ptx frame hash");

    assert_eq!(frames[0].size, 4);
    assert_eq!(frames[0].hash, md5_hex(&[0x11, 0x22, 0x33, 0x44]));
}

#[test]
fn hashes_brender_pix_ya8_payload_like_ffmpeg() {
    let mut input = brender_pix_fixture([0x12, 0x00, 0x20, 0x00], 2, 1);
    input.extend_from_slice(&[0x60, 0x04, 0xf6, 0x30]);
    let frames = brender_pix_image_frame_hashes(&input).expect("brender pix frame hash");

    assert_eq!(frames[0].size, 4);
    assert_eq!(frames[0].hash, md5_hex(&[0x60, 0x04, 0xf6, 0x30]));
}

#[test]
fn hashes_brender_pix_rgb565_payload_like_ffmpeg() {
    let mut input = brender_pix_fixture([0x05, 0x01, 0x00, 0x00], 1, 2);
    input.extend_from_slice(&[0x94, 0x91, 0x21, 0x24]);
    let frames = brender_pix_image_frame_hashes(&input).expect("brender pix frame hash");

    assert_eq!(frames[0].size, 4);
    assert_eq!(frames[0].hash, md5_hex(&[0x94, 0x91, 0x21, 0x24]));
}

#[test]
fn hashes_brender_pix_default_pal8_payload_like_ffmpeg() {
    let mut input = brender_pix_paletted_fixture(2, 1);
    input.extend_from_slice(BRENDER_PIX_INDEX_MARKER);
    input.extend_from_slice(&[0x00, 0x41]);
    let mut expected = vec![0x00, 0x41];
    expected.extend_from_slice(&brender_pix_default_palette());
    let frames = brender_pix_image_frame_hashes(&input).expect("brender pix frame hash");

    assert_eq!(frames[0].size, expected.len());
    assert_eq!(frames[0].hash, md5_hex(&expected));
}

#[test]
fn hashes_brender_pix_embedded_palette_like_ffmpeg() {
    let mut input = brender_pix_paletted_fixture(1, 1);
    input.extend_from_slice(BRENDER_PIX_PALETTE_MARKER);
    let mut source_palette = [0_u8; BMP_PALETTE_BYTES];
    source_palette[4..8].copy_from_slice(&[0x20, 0x10, 0x08, 0x00]);
    input.extend_from_slice(&source_palette);
    input.extend_from_slice(BRENDER_PIX_INDEX_MARKER);
    input.push(0x01);
    let mut expected = vec![0x01];
    let mut expected_palette = [0_u8; BMP_PALETTE_BYTES];
    for entry in 0..256 {
        expected_palette[entry * 4 + 3] = 0xff;
    }
    expected_palette[4..8].copy_from_slice(&[0x08, 0x10, 0x20, 0xff]);
    expected.extend_from_slice(&expected_palette);
    let frames = brender_pix_image_frame_hashes(&input).expect("brender pix frame hash");

    assert_eq!(frames[0].size, expected.len());
    assert_eq!(frames[0].hash, md5_hex(&expected));
}

#[test]
fn hashes_uncompressed_sgi_rgb_as_flipped_gbrp_like_ffmpeg() {
    let mut input = sgi_header(SGI_STORAGE_VERBATIM, 1, 2, 2, 3);
    input.extend_from_slice(&[0x10, 0x11, 0x12, 0x13]);
    input.extend_from_slice(&[0x20, 0x21, 0x22, 0x23]);
    input.extend_from_slice(&[0x30, 0x31, 0x32, 0x33]);
    let frames = sgi_image_frame_hashes(&input).expect("sgi frame hash");

    assert_eq!(frames[0].size, 12);
    assert_eq!(
        frames[0].hash,
        md5_hex(&[0x22, 0x23, 0x20, 0x21, 0x32, 0x33, 0x30, 0x31, 0x12, 0x13, 0x10, 0x11])
    );
}

#[test]
fn hashes_8_bit_rle_sgi_like_ffmpeg() {
    let mut input = sgi_header(SGI_STORAGE_RLE, 1, 4, 1, 1);
    input.extend_from_slice(&520_u32.to_be_bytes());
    input.extend_from_slice(&6_u32.to_be_bytes());
    input.extend_from_slice(&[0x84, 0x01, 0x02, 0x03, 0x04, 0x00]);
    let frames = sgi_image_frame_hashes(&input).expect("sgi frame hash");

    assert_eq!(frames[0].size, 4);
    assert_eq!(frames[0].hash, md5_hex(&[0x01, 0x02, 0x03, 0x04]));
}

#[test]
fn hashes_16_bit_rle_sgi_like_ffmpeg() {
    let mut input = sgi_header(SGI_STORAGE_RLE, 2, 3, 1, 1);
    input.extend_from_slice(&520_u32.to_be_bytes());
    input.extend_from_slice(&6_u32.to_be_bytes());
    input.extend_from_slice(&3_u16.to_be_bytes());
    input.extend_from_slice(&[0x12, 0x34]);
    input.extend_from_slice(&0_u16.to_be_bytes());
    let frames = sgi_image_frame_hashes(&input).expect("sgi frame hash");

    assert_eq!(frames[0].size, 6);
    assert_eq!(frames[0].hash, md5_hex(&[0x12, 0x34, 0x12, 0x34, 0x12, 0x34]));
}

#[test]
fn reads_fits_header_cards_and_keeps_real_values_as_text() {
    let input = fits_file(&[
        ("BITPIX", "16"),
        ("NAXIS", "2"),
        ("NAXIS1", "2"),
        ("NAXIS2", "2"),
        ("BSCALE", "2.0D0 / scale"),
        ("BZERO", "10.0"),
        ("BLANK", "-7"),
    ]);
    let header = fits_header(&input).expect("fits header");
    assert_eq!(header.width, 2);
    assert_eq!(header.height, 2);
    assert_eq!(header.bitpix, 16);
    assert_eq!(header.data_offset, FITS_BLOCK_LEN);
    assert_eq!(header.bscale, Some(b"2.0E0".to_vec()));
    assert_eq!(header.bzero, Some(b"10.0".to_vec()));
    assert_eq!(header.blank, Some(-7));
    assert_eq!(header.datamin, None);
}

#[test]
fn rejects_fits_cards_with_bad_values() {
    let input = fits_file(&[("BITPIX", "16"), ("NAXIS", "2"), ("NAXIS1", "2"), ("NAXIS2", "2"), ("BSCALE", "two")]);
    assert!(matches!(fits_header(&input), Err(RmpegError::InvalidData(_))));
    let input = fits_file(&[("BITPIX", "8"), ("NAXIS", "2"), ("NAXIS1", "2"), ("NAXIS2", "2")]);
    assert!(matches!(fits_header(&input), Err(RmpegError::Unsupported(_))));
    let input = fits_file(&[("BITPIX", "16"), ("NAXIS", "3"), ("NAXIS1", "2"), ("NAXIS2", "2")]);
    assert!(matches!(fits_header(&input), Err(RmpegError::Unsupported(_))));
    let input = fits_file(&[("BITPIX", "16"), ("NAXIS", "2"), ("NAXIS1", "0"), ("NAXIS2", "2")]);
    assert!(matches!(fits_header(&input), Err(RmpegError::InvalidData(_))));
}

#[test]
fn reads_fits_samples_with_blank_and_flips_rows() {
    let mut input = fits_file(&[("BITPIX", "16"), ("NAXIS", "2"), ("NAXIS1", "2"), ("NAXIS2", "2"), ("BLANK", "10")]);
    for value in [0_i16, 10, -20, 30] {
        input.extend_from_slice(&value.to_be_bytes());
    }
    let header = fits_header(&input).expect("fits header");
    let samples = fits_samples(&input, &header).expect("fits samples");
    assert_eq!(samples, vec![FitsSample::Integer(0), FitsSample::Blank, FitsSample::Integer(-20), FitsSample::Integer(30)]);
    let frame = fits_frame(&header, &[1, 2, 3, 4]).expect("fits frame");
    assert_eq!(frame, gray16le(&[3, 4, 1, 2]));
}

#[test]
fn reverses_low_bits() {
    assert_eq!(reverse_bits(0x22, 8), 0x44);
    assert_eq!(reverse_bits(1, 8), 0x80);
    assert_eq!(reverse_bits(0x0f80, 16), 0x01f0);
}

#[test]
fn rejects_invalid_xbm_text() {
    assert!(matches!(xbm_image_frame_hashes(b"\xff\xfe"), Err(RmpegError::InvalidData(_))));
    let missing = b"#define image_height 1\nstatic char image_bits[] = { 0x22 };\n";
    assert!(matches!(xbm_image_frame_hashes(missing), Err(RmpegError::InvalidData(_))));
    let short = b"#define image_width 16\n#define image_height 1\nstatic char image_bits[] = { 0x22 };\n";
    assert!(matches!(xbm_image_frame_hashes(short), Err(RmpegError::UnexpectedEof { needed: 2, remaining: 1 })));
}

#[test]
fn rejects_dpx_sequences_of_changing_size() {
    let mut input = dpx_header(true, 1, 1, 8, 0);
    input.extend_from_slice(&[0x10, 0x20, 0x30, 0x00]);
    input.extend_from_slice(&dpx_header(true, 2, 1, 8, 0));
    input.extend_from_slice(&[0x40, 0x50, 0x60, 0x70, 0x80, 0x90, 0x00, 0x00]);
    assert!(matches!(dpx_image_frame_hashes(&input), Err(RmpegError::Unsupported(_))));
    assert!(matches!(dpx_image_frame_hashes(b""), Err(RmpegError::InvalidData(_))));
}
