use rmpeg::codec::digest::md5_hex;
use rmpeg::codec::gif::{decode_gif, gif_lzw_decode, gif_video_frame_hashes};

fn gif_header(width: u16, height: u16, palette: &[[u8; 3]]) -> Vec<u8> {
    let mut bytes = Vec::new();
    bytes.extend_from_slice(b"GIF89a");
    bytes.extend_from_slice(&width.to_le_bytes());
    bytes.extend_from_slice(&height.to_le_bytes());
    bytes.extend_from_slice(&[0x80, 0, 0]);
    for color in palette {
        bytes.extend_from_slice(color);
    }
    bytes
}

fn graphic_control(delay: u16, packed: u8, transparent_index: u8) -> Vec<u8> {
    let mut bytes = vec![0x21, 0xF9, 4, packed];
    bytes.extend_from_slice(&delay.to_le_bytes());
    bytes.extend_from_slice(&[transparent_index, 0]);
    bytes
}

fn one_pixel_image(index: u8) -> Vec<u8> {
    let payload = match index {
        0 => [0x44, 0x01],
        1 => [0x4c, 0x01],
        _ => panic!("test fixture only supports palette indexes 0 and 1"),
    };
    let mut bytes = vec![0x2C];
    bytes.extend_from_slice(&[0, 0, 0, 0, 1, 0, 1, 0, 0]);
    bytes.extend_from_slice(&[2, 2]);
    bytes.extend_from_slice(&payload);
    bytes.extend_from_slice(&[0]);
    bytes
}

fn one_pixel_local_palette_image(index: u8, palette: &[[u8; 3]]) -> Vec<u8> {
    let payload = match index {
        0 => [0x44, 0x01],
        1 => [0x4c, 0x01],
        _ => panic!("test fixture only supports palette indexes 0 and 1"),
    };
    let mut bytes = vec![0x2C];
    bytes.extend_from_slice(&[0, 0, 0, 0, 1, 0, 1, 0, 0x80]);
    for color in palette {
        bytes.extend_from_slice(color);
    }
    bytes.extend_from_slice(&[2, 2]);
    bytes.extend_from_slice(&payload);
    bytes.extend_from_slice(&[0]);
    bytes
}

#[test]
fn decodes_single_index_lzw_payload() {
    assert_eq!(gif_lzw_decode(&[0x4c, 0x01], 2, 1).unwrap(), vec![1]);
}

#[test]
fn hashes_single_frame_as_bgra() {
    let mut bytes = gif_header(1, 1, &[[255, 0, 0], [0, 0, 0]]);
    bytes.extend_from_slice(&graphic_control(5, 0, 0));
    bytes.extend_from_slice(&one_pixel_image(0));
    bytes.push(0x3B);

    let decoded = decode_gif(&bytes).unwrap();
    assert_eq!(decoded.frames.len(), 1);
    assert_eq!(decoded.frames[0].pixels, vec![0, 0, 255, 255]);

    let document = gif_video_frame_hashes(&bytes).unwrap();
    assert_eq!(document.frame_rate_num, 20);
    assert_eq!(document.frame_rate_den, 1);
    assert_eq!(document.frames[0].size, 4);
    assert_eq!(document.frames[0].hash, md5_hex(&[0, 0, 255, 255]));
}

#[test]
fn restore_previous_disposal_reinstates_canvas_after_output() {
    let mut bytes = gif_header(1, 1, &[[255, 0, 0], [0, 255, 0]]);
    bytes.extend_from_slice(&graphic_control(10, 0, 0));
    bytes.extend_from_slice(&one_pixel_image(0));
    bytes.extend_from_slice(&graphic_control(10, 3 << 2, 0));
    bytes.extend_from_slice(&one_pixel_image(1));
    bytes.extend_from_slice(&graphic_control(10, 0, 0));
    bytes.extend_from_slice(&one_pixel_image(0));
    bytes.push(0x3B);

    let decoded = decode_gif(&bytes).unwrap();
    assert_eq!(decoded.frames[0].pixels, vec![0, 0, 255, 255]);
    assert_eq!(decoded.frames[1].pixels, vec![0, 255, 0, 255]);
    assert_eq!(decoded.frames[2].pixels, vec![0, 0, 255, 255]);
}

#[test]
fn transparent_index_leaves_canvas_unchanged() {
    let mut bytes = gif_header(1, 1, &[[255, 0, 0], [0, 255, 0]]);
    bytes.extend_from_slice(&graphic_control(10, 0, 0));
    bytes.extend_from_slice(&one_pixel_image(0));
    bytes.extend_from_slice(&graphic_control(10, 0x01, 1));
    bytes.extend_from_slice(&one_pixel_image(1));
    bytes.push(0x3B);

    let decoded = decode_gif(&bytes).unwrap();
    assert_eq!(decoded.frames[0].pixels, vec![0, 0, 255, 255]);
    assert_eq!(decoded.frames[1].pixels, vec![0, 0, 255, 255]);
}

#[test]
fn untouched_canvas_without_global_palette_is_transparent_white() {
    let mut bytes = Vec::new();
    bytes.extend_from_slice(b"GIF89a");
    bytes.extend_from_slice(&2_u16.to_le_bytes());
    bytes.extend_from_slice(&1_u16.to_le_bytes());
    bytes.extend_from_slice(&[0, 0, 0]);
    bytes.extend_from_slice(&graphic_control(10, 0, 0));
    bytes.extend_from_slice(&one_pixel_local_palette_image(0, &[[255, 0, 0], [0, 0, 0]]));
    bytes.push(0x3B);

    let decoded = decode_gif(&bytes).unwrap();
    assert_eq!(decoded.frames[0].pixels, vec![0, 0, 255, 255, 255, 255, 255, 0]);
}

#[test]
fn background_disposal_clears_to_the_background_colour() {
    let mut bytes = gif_header(1, 1, &[[255, 0, 0], [0, 255, 0]]);
    bytes.extend_from_slice(&graphic_control(10, 2 << 2, 0));
    bytes.extend_from_slice(&one_pixel_image(1));
    bytes.extend_from_slice(&graphic_control(10, 0x01, 0));
    bytes.extend_from_slice(&one_pixel_image(0));
    bytes.push(0x3B);

    let decoded = decode_gif(&bytes).unwrap();
    assert_eq!(decoded.frames[0].pixels, vec![0, 255, 0, 255]);
    assert_eq!(decoded.frames[1].pixels, vec![0, 0, 255, 255]);
}

#[test]
fn frame_durations_round_up_to_the_common_tick() {
    let mut bytes = gif_header(1, 1, &[[255, 0, 0], [0, 255, 0]]);
    bytes.extend_from_slice(&graphic_control(4, 0, 0));
    bytes.extend_from_slice(&one_pixel_image(0));
    bytes.extend_from_slice(&graphic_control(6, 0, 0));
    bytes.extend_from_slice(&one_pixel_image(1));
    bytes.push(0x3B);

    let document = gif_video_frame_hashes(&bytes).unwrap();
    assert_eq!(document.frame_rate_num, 50);
    assert_eq!(document.frame_rate_den, 1);
    assert_eq!(document.frames[0].duration, 2);
    assert_eq!(document.frames[1].pts, 2);
    assert_eq!(document.frames[1].duration, 3);
}

#[test]
fn rejects_gif_without_signature_or_frames() {
    assert!(decode_gif(b"GIF90a\x01\x00\x01\x00\x00\x00\x00").is_err());
    let mut bytes = gif_header(1, 1, &[[255, 0, 0], [0, 255, 0]]);
    bytes.push(0x3B);
    assert!(gif_video_frame_hashes(&bytes).is_err());
}
