use rmpeg::format::fits::{parse_fits};

fn card(key: &str, value: &str) -> [u8; 80] {
    let mut card = [b' '; 80];
    card[..key.len()].copy_from_slice(key.as_bytes());
    card[8] = b'=';
    card[10..10 + value.len()].copy_from_slice(value.as_bytes());
    card
}

#[test]
fn parses_fits_dimensions() {
    let mut bytes = Vec::new();
    bytes.extend_from_slice(&card("SIMPLE", "T"));
    bytes.extend_from_slice(&card("NAXIS1", "256"));
    bytes.extend_from_slice(&card("NAXIS2", "128"));
    let doc = parse_fits(&bytes).expect("valid fits");
    assert_eq!(doc.streams[0].width, Some(256));
    assert_eq!(doc.streams[0].height, Some(128));
}
