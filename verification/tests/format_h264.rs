use rmpeg::format::h264::{looks_like_h264_annex_b, parse_h264_annex_b, parse_sps};
use rmpeg::format::nal::rbsp_from_ebsp;

#[test]
fn parses_minimal_baseline_sps_dimensions() {
    let rbsp = baseline_sps_rbsp(10, 8);
    let mut bytes = Vec::from(&b"\x00\x00\x00\x01\x67"[..]);
    bytes.extend(rbsp);
    let doc = parse_h264_annex_b(&bytes).expect("valid H.264 Annex B");
    let stream = &doc.streams[0];
    assert_eq!(doc.format, "h264");
    assert_eq!(stream.codec_name, "h264");
    assert_eq!(stream.width, Some(176));
    assert_eq!(stream.height, Some(144));
}

#[test]
fn ignores_emulation_prevention_bytes() {
    let rbsp = rbsp_from_ebsp(&[0, 0, 3, 1, 0, 0, 3, 2]);
    assert_eq!(rbsp, vec![0, 0, 1, 0, 0, 2]);
}

#[test]
fn h264_does_not_scan_far_into_arbitrary_binary() {
    let mut bytes = vec![0; 512];
    bytes.extend_from_slice(&b"\x00\x00\x00\x01\x67"[..]);
    bytes.extend(baseline_sps_rbsp(10, 8));
    assert!(!looks_like_h264_annex_b(&bytes));
}

fn baseline_sps_rbsp(width_mbs_minus1: u32, height_map_units_minus1: u32) -> Vec<u8> {
    let mut bits = BitWriter::new();
    bits.write_bits(66, 8);
    bits.write_bits(0, 8);
    bits.write_bits(10, 8);
    bits.write_ue(0);
    bits.write_ue(0);
    bits.write_ue(0);
    bits.write_ue(0);
    bits.write_ue(1);
    bits.write_bit(false);
    bits.write_ue(width_mbs_minus1);
    bits.write_ue(height_map_units_minus1);
    bits.write_bit(true);
    bits.write_bit(true);
    bits.write_bit(false);
    bits.write_bit(false);
    bits.finish()
}

struct BitWriter {
    bytes: Vec<u8>,
    bit_pos: usize,
}

impl BitWriter {
    fn new() -> Self {
        Self {
            bytes: vec![0],
            bit_pos: 0,
        }
    }

    fn write_bit(&mut self, bit: bool) {
        if self.bit_pos == 8 {
            self.bytes.push(0);
            self.bit_pos = 0;
        }
        if bit {
            let last = self.bytes.len() - 1;
            self.bytes[last] |= 1 << (7 - self.bit_pos);
        }
        self.bit_pos += 1;
    }

    fn write_bits(&mut self, value: u32, count: usize) {
        for bit in (0..count).rev() {
            self.write_bit(((value >> bit) & 1) == 1);
        }
    }

    fn write_ue(&mut self, value: u32) {
        let code_num = value + 1;
        let width = 32 - code_num.leading_zeros();
        for _ in 1..width {
            self.write_bit(false);
        }
        self.write_bits(code_num, width as usize);
    }

    fn finish(mut self) -> Vec<u8> {
        self.write_bit(true);
        self.bytes
    }
}

#[test]
fn h264_sps_with_crop_and_stream_probe() {
    let rbsp = baseline_sps_rbsp(10, 8);
    let dims = parse_sps(&rbsp).expect("sps");
    assert_eq!((dims.width, dims.height), (176, 144));
    let mut bytes = Vec::from(&b"\x00\x00\x00\x01\x67"[..]);
    bytes.extend(baseline_sps_rbsp(10, 8));
    assert!(looks_like_h264_annex_b(&bytes));
    let doc = parse_h264_annex_b(&bytes).expect("stream");
    let d = doc.streams[0].duration_seconds.unwrap();
    assert_eq!(d.num, 0);
}

#[test]
fn h264_stream_without_sps_is_rejected() {
    let bytes = [0x00, 0x00, 0x01, 0x09, 0xf0, 0x00, 0x00, 0x01, 0x06, 0x05];
    assert!(parse_h264_annex_b(&bytes).is_err());
    assert!(!looks_like_h264_annex_b(&bytes));
}

#[test]
fn h264_truncated_sps_reports_end_of_data() {
    let err = parse_sps(&[66]).expect_err("short");
    assert!(err.message().contains("needed 2 bytes, had 1"));
}
