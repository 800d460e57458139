use rmpeg::format::hevc::{looks_like_hevc_annex_b, parse_hevc_annex_b, parse_sps};

#[test]
fn parses_minimal_sps_dimensions() {
    let mut bytes = Vec::from(&b"\x00\x00\x00\x01\x40\x01"[..]);
    bytes.extend([0x01, 0x02, 0x03]);
    bytes.extend_from_slice(&b"\x00\x00\x00\x01\x42\x01"[..]);
    bytes.extend(minimal_sps_rbsp(1920, 1080));

    let doc = parse_hevc_annex_b(&bytes).expect("valid HEVC Annex B");
    let stream = &doc.streams[0];
    assert_eq!(doc.format, "hevc");
    assert_eq!(stream.codec_name, "hevc");
    assert_eq!(stream.width, Some(1920));
    assert_eq!(stream.height, Some(1080));
}

#[test]
fn applies_conformance_window_crop() {
    let rbsp = minimal_sps_rbsp_with_crop(1920, 1088, 0, 0, 0, 4);
    let dimensions = parse_sps(&rbsp)
        .expect("cropped HEVC SPS")
        .visible_dimensions();
    assert_eq!(dimensions.width, 1920);
    assert_eq!(dimensions.height, 1080);
}

#[test]
fn reports_zero_dimensions_for_unsupported_sps_tail() {
    let mut bytes = Vec::from(&b"\x00\x00\x00\x01\x42\x01"[..]);
    bytes.extend(minimal_sps_rbsp_with_bit_depths(1024, 768, 2, 1));

    let doc = parse_hevc_annex_b(&bytes).expect("accepted HEVC stream");
    let stream = &doc.streams[0];
    assert_eq!(stream.width, Some(0));
    assert_eq!(stream.height, Some(0));
}

#[test]
fn reports_zero_dimensions_for_empty_sps_extension_payload() {
    let mut bytes = Vec::from(&b"\x00\x00\x00\x01\x42\x01"[..]);
    bytes.extend(minimal_sps_rbsp_with_empty_extension_payload(416, 240));

    let doc = parse_hevc_annex_b(&bytes).expect("accepted HEVC stream");
    let stream = &doc.streams[0];
    assert_eq!(stream.width, Some(0));
    assert_eq!(stream.height, Some(0));
}

#[test]
fn rejects_annex_b_without_sps() {
    let bytes = b"\x00\x00\x00\x01\x40\x01\x01\x02\x03\x00\x00\x00\x01\x44\x01";
    assert!(!looks_like_hevc_annex_b(bytes));
}

#[test]
fn hevc_does_not_scan_far_into_arbitrary_binary() {
    let mut bytes = vec![0; 512];
    bytes.extend_from_slice(&b"\x00\x00\x00\x01\x42\x01"[..]);
    bytes.extend(minimal_sps_rbsp(640, 360));
    assert!(!looks_like_hevc_annex_b(&bytes));
}

fn minimal_sps_rbsp(width: u32, height: u32) -> Vec<u8> {
    minimal_sps_rbsp_with_crop_and_bit_depths(width, height, (0, 0, 0, 0), 0, 0)
}

fn minimal_sps_rbsp_with_crop(
    width: u32,
    height: u32,
    crop_left: u32,
    crop_right: u32,
    crop_top: u32,
    crop_bottom: u32,
) -> Vec<u8> {
    minimal_sps_rbsp_with_crop_and_bit_depths(
        width,
        height,
        (crop_left, crop_right, crop_top, crop_bottom),
        0,
        0,
    )
}

fn minimal_sps_rbsp_with_bit_depths(
    width: u32,
    height: u32,
    luma_minus8: u32,
    chroma_minus8: u32,
) -> Vec<u8> {
    minimal_sps_rbsp_with_crop_and_bit_depths(
        width,
        height,
        (0, 0, 0, 0),
        luma_minus8,
        chroma_minus8,
    )
}

fn minimal_sps_rbsp_with_crop_and_bit_depths(
    width: u32,
    height: u32,
    crop: (u32, u32, u32, u32),
    luma_minus8: u32,
    chroma_minus8: u32,
) -> Vec<u8> {
    let (crop_left, crop_right, crop_top, crop_bottom) = crop;
    let mut bits = BitWriter::new();
    bits.write_bits(0, 4);
    bits.write_bits(0, 3);
    bits.write_bit(true);
    bits.write_bits(0, 2);
    bits.write_bit(false);
    bits.write_bits(1, 5);
    bits.write_bits(0, 32);
    bits.write_bits(0, 48);
    bits.write_bits(120, 8);
    bits.write_ue(0);
    bits.write_ue(1);
    bits.write_ue(width);
    bits.write_ue(height);
    let has_crop = crop_left != 0 || crop_right != 0 || crop_top != 0 || crop_bottom != 0;
    bits.write_bit(has_crop);
    if has_crop {
        bits.write_ue(crop_left);
        bits.write_ue(crop_right);
        bits.write_ue(crop_top);
        bits.write_ue(crop_bottom);
    }
    bits.write_ue(luma_minus8);
    bits.write_ue(chroma_minus8);
    bits.write_ue(4);
    bits.write_bit(false);
    bits.write_ue(0);
    bits.write_ue(0);
    bits.write_ue(0);
    write_minimal_sps_tail_after_ordering(&mut bits);
    bits.finish()
}

fn minimal_sps_rbsp_with_empty_extension_payload(width: u32, height: u32) -> Vec<u8> {
    let mut bits = BitWriter::new();
    bits.write_bits(0, 4);
    bits.write_bits(0, 3);
    bits.write_bit(true);
    bits.write_bits(0, 2);
    bits.write_bit(false);
    bits.write_bits(1, 5);
    bits.write_bits(0, 32);
    bits.write_bits(0, 48);
    bits.write_bits(120, 8);
    bits.write_ue(0);
    bits.write_ue(1);
    bits.write_ue(width);
    bits.write_ue(height);
    bits.write_bit(false);
    bits.write_ue(0);
    bits.write_ue(0);
    bits.write_ue(4);
    bits.write_bit(false);
    bits.write_ue(0);
    bits.write_ue(0);
    bits.write_ue(0);
    write_minimal_sps_tail_prefix_after_ordering(&mut bits);
    bits.write_bit(false);
    bits.write_bit(true);
    bits.write_bit(true);
    bits.write_bit(false);
    bits.write_bit(false);
    bits.write_bit(false);
    bits.write_bits(0, 4);
    bits.finish()
}

fn write_minimal_sps_tail_after_ordering(bits: &mut BitWriter) {
    write_minimal_sps_tail_prefix_after_ordering(bits);
    bits.write_bit(false);
    bits.write_bit(false);
}

fn write_minimal_sps_tail_prefix_after_ordering(bits: &mut BitWriter) {
    bits.write_ue(0);
    bits.write_ue(0);
    bits.write_ue(0);
    bits.write_ue(0);
    bits.write_ue(0);
    bits.write_ue(0);
    bits.write_bit(false);
    bits.write_bit(false);
    bits.write_bit(true);
    bits.write_bit(false);
    bits.write_ue(0);
    bits.write_bit(false);
    bits.write_bit(false);
    bits.write_bit(true);
}

struct BitWriter {
    bytes: Vec<u8>,
    bit_pos: usize,
}

impl BitWriter {
    fn new() -> Self {
        Self {
            bytes: vec![0],
            bit_pos: 0,
        }
    }

    fn write_bit(&mut self, bit: bool) {
        if self.bit_pos == 8 {
            self.bytes.push(0);
            self.bit_pos = 0;
        }
        if bit {
            let last = self.bytes.len() - 1;
            self.bytes[last] |= 1 << (7 - self.bit_pos);
        }
        self.bit_pos += 1;
    }

    fn write_bits(&mut self, value: u64, count: usize) {
        for bit in (0..count).rev() {
            self.write_bit(((value >> bit) & 1) == 1);
        }
    }

    fn write_ue(&mut self, value: u32) {
        let code_num = value + 1;
        let width = 32 - code_num.leading_zeros();
        for _ in 1..width {
            self.write_bit(false);
        }
        self.write_bits(u64::from(code_num), width as usize);
    }

    fn finish(mut self) -> Vec<u8> {
        self.write_bit(true);
        self.bytes
    }
}

#[test]
fn hevc_probe_reports_full_size_and_recognises_stream() {
    let mut bytes = Vec::from(&b"\x00\x00\x00\x01\x42\x01"[..]);
    bytes.extend(minimal_sps_rbsp(640, 360));
    assert!(looks_like_hevc_annex_b(&bytes));
    let doc = parse_hevc_annex_b(&bytes).expect("hevc");
    assert_eq!(doc.streams[0].width, Some(640));
    assert_eq!(doc.streams[0].height, Some(360));
}

#[test]
fn hevc_crop_larger_than_picture_is_rejected() {
    let rbsp = minimal_sps_rbsp_with_crop(64, 64, 0, 0, 0, 40);
    assert!(parse_sps(&rbsp).is_err());
}
