use rmpeg::format::dsdiff::{parse_dsdiff};
use rmpeg::metadata::StreamMetadata;

fn dur(s: &StreamMetadata) -> Option<f64> {
    s.duration_seconds.map(|d| d.num as f64 / d.den as f64)
}

#[test]
fn parses_dst_metadata_from_dsdiff_chunks() {
    let mut bytes = b"FRM8\0\0\0\0\0\0\0\0DSD ".to_vec();
    bytes.extend_from_slice(&chunk(b"FS  ", &2_822_400_u32.to_be_bytes()));
    let mut chnl = Vec::new();
    chnl.extend_from_slice(&2_u16.to_be_bytes());
    chnl.extend_from_slice(b"SLFTSRGT");
    bytes.extend_from_slice(&chunk(b"CHNL", &chnl));
    bytes.extend_from_slice(&chunk(b"CMPR", b"DST \0DST"));
    let mut frte = Vec::new();
    frte.extend_from_slice(&10_u32.to_be_bytes());
    frte.extend_from_slice(&75_u16.to_be_bytes());
    bytes.extend_from_slice(&chunk(b"FRTE", &frte));

    let doc = parse_dsdiff(&bytes).expect("dsdiff");

    assert_eq!(doc.format, "iff");
    assert_eq!(doc.streams[0].codec_name, "dst");
    assert_eq!(doc.streams[0].sample_rate, Some(352_800));
    assert_eq!(dur(&doc.streams[0]), Some(10.0 / 75.0));
}

fn chunk(id: &[u8; 4], data: &[u8]) -> Vec<u8> {
    let mut out = Vec::new();
    out.extend_from_slice(id);
    out.extend_from_slice(&(data.len() as u64).to_be_bytes());
    out.extend_from_slice(data);
    out
}
