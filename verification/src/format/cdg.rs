use vstd::prelude::*;
use crate::error::{invalid_data, Failure, Result};
use crate::metadata::{probe_outcome, secs, video_stream, Probe, ProbeDocument, Seconds, StreamMetadata};

verus! {

/// The size of one CD+G packet.
pub const CDG_PACKET_SIZE: usize = 24;

/// Whether `b` is a nonempty whole number of packets whose first eight packets
/// (or all, if fewer) carry the CD+G command 9 in their low six bits.
pub open spec fn cdg_shape(b: Seq<u8>) -> bool {
    b.len() > 0 && b.len() % 24 == 0 && forall|i: int|
        0 <= i < 8 && 24 * i < b.len() ==> #[trigger] (b[24 * i] & 0x3f) == 0x09
}

/// The probe of a CD+G stream: 300 packets per second.
pub open spec fn spec_parse_cdg(b: Seq<u8>) -> core::result::Result<Probe, Failure> {
    if !cdg_shape(b) {
        Err(Failure::InvalidData)
    } else {
        Ok(Probe {
            format: "cdg",
            streams: seq![video_stream(0, "cdgraphics", 300, 216, Some(secs((b.len() / 24) as int, 300)), Some("300/1"))],
        })
    }
}

/// Probes a CD+G stream.
pub fn parse_cdg(bytes: &[u8]) -> (r: Result<ProbeDocument>)
    ensures
        probe_outcome(r) == spec_parse_cdg(bytes@),
{
    if !looks_like_cdg(bytes) {
        return Err(invalid_data("missing CDG packet stream"));
    }
    let packets = bytes.len() / CDG_PACKET_SIZE;
    let duration = Seconds { num: packets as u128, den: 300 };
    Ok(ProbeDocument::single(
        "cdg",
        StreamMetadata::video(0, "cdgraphics", 300, 216, Some(duration), Some("300/1")),
    ))
}

/// Whether `bytes` has the shape of a CD+G packet stream.
pub fn looks_like_cdg(bytes: &[u8]) -> (r: bool)
    ensures
        r == cdg_shape(bytes@),
{
    if bytes.len() == 0 || bytes.len() % CDG_PACKET_SIZE != 0 {
        return false;
    }
    let mut i: usize = 0;
    while i < 8 && i * 24 < bytes.len()
        invariant
            i <= 8,
            forall|j: int| 0 <= j < i ==> #[trigger] (bytes@[24 * j] & 0x3f) == 0x09,
        decreases 8 - i,
    {
        if bytes[i * 24] & 0x3f != 0x09 {
            assert((bytes@[24 * (i as int)] & 0x3f) != 0x09);
            return false;
        }
        i += 1;
    }
    true
}

} // verus!
