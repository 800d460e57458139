use vstd::prelude::*;
use crate::error::{unsupported, Failure, Result};
use crate::metadata::{probe_outcome, Probe, ProbeDocument, StreamMetadata};
use crate::bytes::{has_tag, tag_at};
use vstd::string::StrSliceExecFns;
use vstd::string::StringSliceAdditionalSpecFns;
use crate::format::aac::{parse_adts_aac, spec_parse_adts_aac};
use crate::format::ac3::{parse_raw_ac3_or_eac3, spec_parse_raw_ac3_or_eac3};
use crate::format::act::{parse_act, spec_parse_act};
use crate::format::aea::{parse_aea, spec_parse_aea};
use crate::format::alg_mm::{parse_alg_mm, spec_parse_alg_mm};
use crate::format::alias_pix::{parse_alias_pix, spec_parse_alias_pix};
use crate::format::alp::{parse_alp, spec_parse_alp};
use crate::format::amr::{parse_amr_nb, spec_parse_amr_nb};
use crate::format::amv::{parse_amv, spec_parse_amv};
use crate::format::anm::{parse_anm, spec_parse_anm};
use crate::format::ape::{parse_ape, spec_parse_ape};
use crate::format::apm::{parse_apm, spec_parse_apm};
use crate::format::apv::{parse_apv, spec_parse_apv};
use crate::format::asf::{parse_asf, spec_parse_asf};
use crate::format::ast::{parse_ast, spec_parse_ast};
use crate::format::avi::{parse_avi, spec_parse_avi};
use crate::format::bethsoftvid::{parse_bethsoftvid, spec_parse_bethsoftvid};
use crate::format::bfi::{parse_bfi, spec_parse_bfi};
use crate::format::bfstm::{parse_bfstm_or_brstm, spec_parse_bfstm_or_brstm};
use crate::format::bink::{parse_bink, spec_parse_bink};
use crate::format::bintext::{parse_bintext, spec_parse_bintext};
use crate::format::bmp::{parse_bmp, spec_parse_bmp};
use crate::format::bmv::{parse_bmv, spec_parse_bmv};
use crate::format::brender_pix::{parse_brender_pix, spec_parse_brender_pix};
use crate::format::caf::{parse_caf, spec_parse_caf};
use crate::format::cdg::{parse_cdg, spec_parse_cdg};
use crate::format::cdxl::{parse_cdxl, spec_parse_cdxl};
use crate::format::cine::{parse_cine, spec_parse_cine};
use crate::format::dds::{parse_dds, spec_parse_dds};
use crate::format::dfa::{parse_dfa, spec_parse_dfa};
use crate::format::dnxhd::{parse_raw_dnxhd, spec_parse_raw_dnxhd};
use crate::format::dpx::{parse_dpx, spec_parse_dpx};
use crate::format::dsdiff::{parse_dsdiff, spec_parse_dsdiff};
use crate::format::dts::{parse_dtshd, spec_parse_dtshd, parse_mpegts_dts, spec_parse_mpegts_dts, parse_raw_dts, spec_parse_raw_dts};
use crate::format::dxa::{parse_dxa, spec_parse_dxa};
use crate::format::ea::{parse_ea, spec_parse_ea};
use crate::format::exr::{parse_exr, spec_parse_exr};
use crate::format::fits::{parse_fits, spec_parse_fits};
use crate::format::flac::{parse_flac, spec_parse_flac};
use crate::format::flic::{parse_flic, spec_parse_flic};
use crate::format::flv::{parse_flv, spec_parse_flv};
use crate::format::fourxm::{parse_fourxm, spec_parse_fourxm};
use crate::format::gdv::{parse_gdv, spec_parse_gdv};
use crate::format::gif::{parse_gif, spec_parse_gif};
use crate::format::h264::{parse_h264_annex_b, spec_parse_h264_annex_b};
use crate::format::hevc::{parse_hevc_annex_b, spec_parse_hevc_annex_b};
use crate::format::idcin::{parse_idcin, spec_parse_idcin};
use crate::format::iff::{parse_iff, spec_parse_iff};
use crate::format::ivf::{parse_ivf, spec_parse_ivf};

verus! {

/// The probe of an input of unknown format: the result of the first parser, in a fixed
/// order, that accepts it. Containers with a distinctive signature come first; raw
/// elementary streams, recognised by scanning, come last. An input that no parser
/// accepts is unsupported.
pub open spec fn spec_probe(b: Seq<u8>) -> core::result::Result<Probe, Failure> {
    if spec_parse_avi(b) is Ok {
        spec_parse_avi(b)
    } else if spec_parse_asf(b) is Ok {
        spec_parse_asf(b)
    } else if spec_parse_flv(b) is Ok {
        spec_parse_flv(b)
    } else if spec_parse_caf(b) is Ok {
        spec_parse_caf(b)
    } else if spec_parse_flac(b) is Ok {
        spec_parse_flac(b)
    } else if spec_parse_gif(b) is Ok {
        spec_parse_gif(b)
    } else if spec_parse_bmp(b) is Ok {
        spec_parse_bmp(b)
    } else if spec_parse_dds(b) is Ok {
        spec_parse_dds(b)
    } else if spec_parse_dpx(b) is Ok {
        spec_parse_dpx(b)
    } else if spec_parse_exr(b) is Ok {
        spec_parse_exr(b)
    } else if spec_parse_fits(b) is Ok {
        spec_parse_fits(b)
    } else if spec_parse_ivf(b) is Ok {
        spec_parse_ivf(b)
    } else if spec_parse_iff(b) is Ok {
        spec_parse_iff(b)
    } else if spec_parse_dsdiff(b) is Ok {
        spec_parse_dsdiff(b)
    } else if spec_parse_ape(b) is Ok {
        spec_parse_ape(b)
    } else if spec_parse_bink(b) is Ok {
        spec_parse_bink(b)
    } else if spec_parse_cine(b) is Ok {
        spec_parse_cine(b)
    } else if spec_parse_fourxm(b) is Ok {
        spec_parse_fourxm(b)
    } else if spec_parse_flic(b) is Ok {
        spec_parse_flic(b)
    } else if spec_parse_ea(b) is Ok {
        spec_parse_ea(b)
    } else if spec_parse_gdv(b) is Ok {
        spec_parse_gdv(b)
    } else if spec_parse_dxa(b) is Ok {
        spec_parse_dxa(b)
    } else if spec_parse_dfa(b) is Ok {
        spec_parse_dfa(b)
    } else if spec_parse_bfi(b) is Ok {
        spec_parse_bfi(b)
    } else if spec_parse_bfstm_or_brstm(b) is Ok {
        spec_parse_bfstm_or_brstm(b)
    } else if spec_parse_bethsoftvid(b) is Ok {
        spec_parse_bethsoftvid(b)
    } else if spec_parse_amv(b) is Ok {
        spec_parse_amv(b)
    } else if spec_parse_anm(b) is Ok {
        spec_parse_anm(b)
    } else if spec_parse_apm(b) is Ok {
        spec_parse_apm(b)
    } else if spec_parse_apv(b) is Ok {
        spec_parse_apv(b)
    } else if spec_parse_ast(b) is Ok {
        spec_parse_ast(b)
    } else if spec_parse_alp(b) is Ok {
        spec_parse_alp(b)
    } else if spec_parse_act(b) is Ok {
        spec_parse_act(b)
    } else if spec_parse_aea(b) is Ok {
        spec_parse_aea(b)
    } else if spec_parse_alg_mm(b) is Ok {
        spec_parse_alg_mm(b)
    } else if spec_parse_amr_nb(b) is Ok {
        spec_parse_amr_nb(b)
    } else if spec_parse_cdxl(b) is Ok {
        spec_parse_cdxl(b)
    } else if spec_parse_cdg(b) is Ok {
        spec_parse_cdg(b)
    } else if spec_parse_idcin(b) is Ok {
        spec_parse_idcin(b)
    } else if spec_parse_bmv(b) is Ok {
        spec_parse_bmv(b)
    } else if spec_parse_bintext(b) is Ok {
        spec_parse_bintext(b)
    } else if spec_parse_brender_pix(b) is Ok {
        spec_parse_brender_pix(b)
    } else if spec_parse_alias_pix(b) is Ok {
        spec_parse_alias_pix(b)
    } else if spec_parse_dtshd(b) is Ok {
        spec_parse_dtshd(b)
    } else if spec_parse_mpegts_dts(b) is Ok {
        spec_parse_mpegts_dts(b)
    } else if spec_parse_raw_dts(b) is Ok {
        spec_parse_raw_dts(b)
    } else if spec_parse_raw_ac3_or_eac3(b) is Ok {
        spec_parse_raw_ac3_or_eac3(b)
    } else if spec_parse_adts_aac(b) is Ok {
        spec_parse_adts_aac(b)
    } else if spec_parse_raw_dnxhd(b) is Ok {
        spec_parse_raw_dnxhd(b)
    } else if spec_parse_hevc_annex_b(b) is Ok {
        spec_parse_hevc_annex_b(b)
    } else if spec_parse_h264_annex_b(b) is Ok {
        spec_parse_h264_annex_b(b)
    } else {
        Err(Failure::Unsupported)
    }
}

/// Probes an input of unknown format with each parser in turn.
pub fn probe(input: &[u8]) -> (r: Result<ProbeDocument>)
    ensures
        probe_outcome(r) == spec_probe(input@),
{
    if let Ok(document) = parse_avi(input) {
        return Ok(document);
    }
    if let Ok(document) = parse_asf(input) {
        return Ok(document);
    }
    if let Ok(document) = parse_flv(input) {
        return Ok(document);
    }
    if let Ok(document) = parse_caf(input) {
        return Ok(document);
    }
    if let Ok(document) = parse_flac(input) {
        return Ok(document);
    }
    if let Ok(document) = parse_gif(input) {
        return Ok(document);
    }
    if let Ok(document) = parse_bmp(input) {
        return Ok(document);
    }
    if let Ok(document) = parse_dds(input) {
        return Ok(document);
    }
    if let Ok(document) = parse_dpx(input) {
        return Ok(document);
    }
    if let Ok(document) = parse_exr(input) {
        return Ok(document);
    }
    if let Ok(document) = parse_fits(input) {
        return Ok(document);
    }
    if let Ok(document) = parse_ivf(input) {
        return Ok(document);
    }
    if let Ok(document) = parse_iff(input) {
        return Ok(document);
    }
    if let Ok(document) = parse_dsdiff(input) {
        return Ok(document);
    }
    if let Ok(document) = parse_ape(input) {
        return Ok(document);
    }
    if let Ok(document) = parse_bink(input) {
        return Ok(document);
    }
    if let Ok(document) = parse_cine(input) {
        return Ok(document);
    }
    if let Ok(document) = parse_fourxm(input) {
        return Ok(document);
    }
    if let Ok(document) = parse_flic(input) {
        return Ok(document);
    }
    if let Ok(document) = parse_ea(input) {
        return Ok(document);
    }
    if let Ok(document) = parse_gdv(input) {
        return Ok(document);
    }
    if let Ok(document) = parse_dxa(input) {
        return Ok(document);
    }
    if let Ok(document) = parse_dfa(input) {
        return Ok(document);
    }
    if let Ok(document) = parse_bfi(input) {
        return Ok(document);
    }
    if let Ok(document) = parse_bfstm_or_brstm(input) {
        return Ok(document);
    }
    if let Ok(document) = parse_bethsoftvid(input) {
        return Ok(document);
    }
    if let Ok(document) = parse_amv(input) {
        return Ok(document);
    }
    if let Ok(document) = parse_anm(input) {
        return Ok(document);
    }
    if let Ok(document) = parse_apm(input) {
        return Ok(document);
    }
    if let Ok(document) = parse_apv(input) {
        return Ok(document);
    }
    if let Ok(document) = parse_ast(input) {
        return Ok(document);
    }
    if let Ok(document) = parse_alp(input) {
        return Ok(document);
    }
    if let Ok(document) = parse_act(input) {
        return Ok(document);
    }
    if let Ok(document) = parse_aea(input) {
        return Ok(document);
    }
    if let Ok(document) = parse_alg_mm(input) {
        return Ok(document);
    }
    if let Ok(document) = parse_amr_nb(input) {
        return Ok(document);
    }
    if let Ok(document) = parse_cdxl(input) {
        return Ok(document);
    }
    if let Ok(document) = parse_cdg(input) {
        return Ok(document);
    }
    if let Ok(document) = parse_idcin(input) {
        return Ok(document);
    }
    if let Ok(document) = parse_bmv(input) {
        return Ok(document);
    }
    if let Ok(document) = parse_bintext(input) {
        return Ok(document);
    }
    if let Ok(document) = parse_brender_pix(input) {
        return Ok(document);
    }
    if let Ok(document) = parse_alias_pix(input) {
        return Ok(document);
    }
    if let Ok(document) = parse_dtshd(input) {
        return Ok(document);
    }
    if let Ok(document) = parse_mpegts_dts(input) {
        return Ok(document);
    }
    if let Ok(document) = parse_raw_dts(input) {
        return Ok(document);
    }
    if let Ok(document) = parse_raw_ac3_or_eac3(input) {
        return Ok(document);
    }
    if let Ok(document) = parse_adts_aac(input) {
        return Ok(document);
    }
    if let Ok(document) = parse_raw_dnxhd(input) {
        return Ok(document);
    }
    if let Ok(document) = parse_hevc_annex_b(input) {
        return Ok(document);
    }
    if let Ok(document) = parse_h264_annex_b(input) {
        return Ok(document);
    }
    Err(unsupported("input format is not recognised"))
}

/// Whether a stream's media type is spelled `kind`.
pub open spec fn stream_is(s: StreamMetadata, kind: Seq<u8>) -> bool {
    s.codec_type.spec_bytes() == kind
}

/// Stream `i` is the first one whose media type is `kind`.
pub open spec fn is_first_of_kind(ss: Seq<StreamMetadata>, kind: Seq<u8>, i: int) -> bool {
    &&& 0 <= i < ss.len()
    &&& stream_is(ss[i], kind)
    &&& forall|j: int| 0 <= j < i ==> !stream_is(#[trigger] ss[j], kind)
}

/// The first stream of a document whose media type is `kind`.
pub fn first_stream_of_kind<'a>(document: &'a ProbeDocument, kind: &[u8]) -> (r: Option<&'a StreamMetadata>)
    ensures
        r matches Some(s) ==> exists|i: int| is_first_of_kind(document.streams@, kind@, i) && *s == document.streams@[i],
        r is None ==> forall|i: int| 0 <= i < document.streams@.len() ==> !stream_is(#[trigger] document.streams@[i], kind@),
{
    let mut i: usize = 0;
    while i < document.streams.len()
        invariant
            i <= document.streams@.len(),
            forall|j: int| 0 <= j < i ==> !stream_is(#[trigger] document.streams@[j], kind@),
        decreases document.streams@.len() - i,
    {
        let b = document.streams[i].codec_type.as_bytes();
        if b.len() == kind.len() && tag_at(b, 0, kind) {
            assert(b@ =~= b@.subrange(0, kind@.len() as int));
            assert(is_first_of_kind(document.streams@, kind@, i as int));
            return Some(&document.streams[i]);
        }
        proof {
            if stream_is(document.streams@[i as int], kind@) {
                assert(b@.subrange(0, kind@.len() as int) =~= b@);
            }
        }
        i = i + 1;
    }
    None
}

/// The first video stream of a document.
pub fn first_video_stream(document: &ProbeDocument) -> (r: Option<&StreamMetadata>)
    ensures
        r matches Some(s) ==> exists|i: int| is_first_of_kind(document.streams@, seq![0x76u8, 0x69, 0x64, 0x65, 0x6f], i) && *s == document.streams@[i],
        r is None ==> forall|i: int| 0 <= i < document.streams@.len() ==> !stream_is(#[trigger] document.streams@[i], seq![0x76u8, 0x69, 0x64, 0x65, 0x6f]),
{
    let kind: [u8; 5] = [0x76, 0x69, 0x64, 0x65, 0x6f];
    assert(kind@ =~= seq![0x76u8, 0x69, 0x64, 0x65, 0x6f]);
    first_stream_of_kind(document, &kind)
}

/// The first audio stream of a document.
pub fn first_audio_stream(document: &ProbeDocument) -> (r: Option<&StreamMetadata>)
    ensures
        r matches Some(s) ==> exists|i: int| is_first_of_kind(document.streams@, seq![0x61u8, 0x75, 0x64, 0x69, 0x6f], i) && *s == document.streams@[i],
        r is None ==> forall|i: int| 0 <= i < document.streams@.len() ==> !stream_is(#[trigger] document.streams@[i], seq![0x61u8, 0x75, 0x64, 0x69, 0x6f]),
{
    let kind: [u8; 5] = [0x61, 0x75, 0x64, 0x69, 0x6f];
    assert(kind@ =~= seq![0x61u8, 0x75, 0x64, 0x69, 0x6f]);
    first_stream_of_kind(document, &kind)
}

} // verus!
