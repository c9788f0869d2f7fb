//! Canon CR3: the EXIF data is TIFF-structured and split over up to four
//! boxes, `CMT1` to `CMT4`, in the movie box.

use vstd::prelude::*;
use vstd::slice::{slice_subrange, slice_to_vec};
use crate::bytes::spec_has_at;
use crate::error::{Context, Error};
use crate::isobmff::{find_box, IsoBmff};
use crate::loader::{spec_load, BufLoader, SourceKind};
use crate::mov::MoovLocator;
use crate::span::Span;
use crate::tiff::{
    exif_ident_at,
    is_tiff_header,
    spec_exif_ident,
    spec_is_tiff_header,
};
use crate::walker::spec_find;

verus! {

/// The box type `CMT1`.
pub const CMT1: u32 = 0x434D_5431;

/// The box type `CMT2`.
pub const CMT2: u32 = 0x434D_5432;

/// The box type `CMT3`.
pub const CMT3: u32 = 0x434D_5433;

/// The box type `CMT4`.
pub const CMT4: u32 = 0x434D_5434;

/// The TIFF data in the joined payloads `c` of the `CMT` boxes, if there is
/// any.
///
/// Fewer than two bytes are no data. Data that begins with the EXIF
/// signature loses those six bytes; data in which four other bytes precede
/// the signature loses those ten; data that begins with a TIFF header is
/// kept whole; anything else is no data.
pub open spec fn spec_reconstruct(c: Seq<u8>) -> Option<Seq<u8>> {
    if c.len() < 2 {
        None
    } else if spec_has_at(c, 0, spec_exif_ident()) {
        Some(c.skip(6))
    } else if spec_has_at(c, 4, spec_exif_ident()) {
        Some(c.skip(10))
    } else if spec_is_tiff_header(c) {
        Some(c)
    } else {
        None
    }
}

/// The payload of the first box of type `box_type` among the boxes of
/// `moov_body`; nothing when there is no such box or the boxes before it
/// cannot be read.
pub open spec fn spec_payload(s: Seq<u8>, moov_body: Span, box_type: u32) -> Seq<u8> {
    match spec_find(IsoBmff, s, moov_body, box_type as u64) {
        Ok(Some(b)) => if b.body.fits(s.len() as int) {
            b.body.of(s)
        } else {
            Seq::empty()
        },
        _ => Seq::empty(),
    }
}

/// The payloads of `CMT1`, `CMT2`, `CMT3` and `CMT4`, in that order, one
/// after the other. A box that is absent adds nothing.
pub open spec fn spec_cmt_payloads(s: Seq<u8>, moov_body: Span) -> Seq<u8> {
    spec_payload(s, moov_body, CMT1) + spec_payload(s, moov_body, CMT2) + spec_payload(
        s,
        moov_body,
        CMT3,
    ) + spec_payload(s, moov_body, CMT4)
}

/// The EXIF data of the CR3 file `file`, which is read as a stream would
/// be: the movie box is located with the loader, and the payloads of the
/// `CMT` boxes in the buffer that the loader ends with are joined and
/// trimmed.
pub open spec fn spec_cr3_extract(file: Seq<u8>) -> Result<Option<Seq<u8>>, Error> {
    match spec_load(MoovLocator, file, 0, 0) {
        Err(e) => Err(e.spec_in_context(Context::MoovBody)),
        Ok((moov_body, base, end)) => Ok(
            spec_reconstruct(spec_cmt_payloads(file.subrange(base, end), moov_body)),
        ),
    }
}

/// Finds the TIFF data in the joined payloads of the `CMT` boxes.
pub fn reconstruct_exif(joined: &[u8]) -> (r: Option<Vec<u8>>)
    ensures
        match r {
            Some(v) => spec_reconstruct(joined@) == Some(v@),
            None => spec_reconstruct(joined@).is_none(),
        },
{
    let len: usize = joined.len();
    if len < 2 {
        None
    } else if exif_ident_at(joined, 0) {
        let v = slice_to_vec(slice_subrange(joined, 6, len));
        assert(v@ =~= joined@.skip(6));
        Some(v)
    } else if exif_ident_at(joined, 4) {
        let v = slice_to_vec(slice_subrange(joined, 10, len));
        assert(v@ =~= joined@.skip(10));
        Some(v)
    } else if is_tiff_header(joined) {
        Some(slice_to_vec(joined))
    } else {
        None
    }
}

/// Appends the payload of the first box of type `box_type` in `moov_body`
/// to `out`.
fn append_payload(buf: &[u8], moov_body: Span, box_type: u32, out: &mut Vec<u8>)
    ensures
        final(out)@ == old(out)@ + spec_payload(buf@, moov_body, box_type),
{
    match find_box(buf, moov_body, box_type) {
        Ok(Some(b)) => {
            match b.body.slice(buf) {
                Some(bytes) => {
                    out.extend_from_slice(bytes);
                },
                None => {
                    assert(out@ + Seq::<u8>::empty() =~= out@);
                },
            }
        },
        _ => {
            assert(out@ + Seq::<u8>::empty() =~= out@);
        },
    }
}

/// Joins the payloads of the `CMT` boxes in the movie box body `moov_body`
/// of `buf` and finds the TIFF data in them.
pub fn cr3_exif_from_moov(buf: &[u8], moov_body: Span) -> (r: Option<Vec<u8>>)
    ensures
        match r {
            Some(v) => spec_reconstruct(spec_cmt_payloads(buf@, moov_body)) == Some(v@),
            None => spec_reconstruct(spec_cmt_payloads(buf@, moov_body)).is_none(),
        },
{
    let mut joined: Vec<u8> = Vec::new();
    append_payload(buf, moov_body, CMT1, &mut joined);
    append_payload(buf, moov_body, CMT2, &mut joined);
    append_payload(buf, moov_body, CMT3, &mut joined);
    append_payload(buf, moov_body, CMT4, &mut joined);
    assert(joined@ =~= spec_cmt_payloads(buf@, moov_body));
    reconstruct_exif(joined.as_slice())
}

/// Extracts the EXIF data of a CR3 file that is wholly in memory.
///
/// A failure to locate the movie box is reported as `ParseFailed` in the
/// context `MoovBody`, with the cause kept. A file without usable `CMT`
/// data is `Ok(None)`, not an error.
pub fn cr3_extract_exif(file: &[u8]) -> (r: Result<Option<Vec<u8>>, Error>)
    ensures
        match r {
            Ok(Some(v)) => spec_cr3_extract(file@) == Ok::<Option<Seq<u8>>, Error>(Some(v@)),
            Ok(None) => spec_cr3_extract(file@) == Ok::<Option<Seq<u8>>, Error>(None),
            Err(e) => spec_cr3_extract(file@) == Err::<Option<Seq<u8>>, Error>(e),
        },
{
    let mut loader = BufLoader::new(SourceKind::Seekable);
    match loader.load_and_parse(file, &MoovLocator) {
        Err(e) => Err(e.in_context(Context::MoovBody)),
        Ok(moov_body) => {
            let file_bytes = loader.into_vec();
            Ok(cr3_exif_from_moov(file_bytes.as_slice(), moov_body))
        },
    }
}

/// Data that begins with the EXIF signature loses exactly those six bytes.
pub proof fn lemma_signature_strips_six(c: Seq<u8>)
    requires
        spec_has_at(c, 0, spec_exif_ident()),
    ensures
        spec_reconstruct(c) == Some(c.skip(6)),
        c.skip(6).len() == c.len() - 6,
{
}

/// Data in which four bytes precede the EXIF signature loses exactly those
/// ten bytes.
pub proof fn lemma_prefixed_signature_strips_ten(c: Seq<u8>)
    requires
        spec_has_at(c, 4, spec_exif_ident()),
    ensures
        spec_reconstruct(c) == Some(c.skip(10)),
        c.skip(10).len() == c.len() - 10,
{
    let ident = spec_exif_ident();
    assert(c.subrange(4, 10)[0] == ident[0]);
    if spec_has_at(c, 0, ident) {
        assert(c.subrange(0, 6)[4] == ident[4]);
    }
}

/// Data that begins with a TIFF header, and does not hold the EXIF
/// signature behind its first four bytes, is kept as it is.
pub proof fn lemma_tiff_header_is_kept(c: Seq<u8>)
    requires
        spec_is_tiff_header(c),
        !spec_has_at(c, 4, spec_exif_ident()),
    ensures
        spec_reconstruct(c) == Some(c),
{
    let ident = spec_exif_ident();
    if spec_has_at(c, 0, ident) {
        assert(c.subrange(0, 6)[0] == ident[0]);
    }
}

/// Fewer than two bytes are no data.
pub proof fn lemma_short_is_no_data(c: Seq<u8>)
    requires
        c.len() < 2,
    ensures
        spec_reconstruct(c).is_none(),
{
}

} // verus!
