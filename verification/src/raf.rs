//! Fujifilm RAF: a fixed header that says where the embedded JPEG preview
//! lies, which in turn holds the EXIF data.

use vstd::prelude::*;
use crate::bytes::{has_at, read_u32, spec_has_at, spec_u32_at, Endian};
use crate::error::Error;
use crate::jpeg::{find_exif, spec_jpeg_exif};
use crate::span::Span;

verus! {

/// The offset in the header of the offset of the embedded JPEG.
pub const JPEG_OFFSET_AT: usize = 84;

/// The length of the header up to and including the length of the
/// embedded JPEG.
pub const HEADER_LEN: usize = 92;

/// The fifteen characters `FUJIFILMCCD-RAW` that a RAF file begins with.
pub open spec fn spec_raf_magic() -> Seq<u8> {
    seq![
        0x46u8,
        0x55u8,
        0x4Au8,
        0x49u8,
        0x46u8,
        0x49u8,
        0x4Cu8,
        0x4Du8,
        0x43u8,
        0x43u8,
        0x44u8,
        0x2Du8,
        0x52u8,
        0x41u8,
        0x57u8,
    ]
}

/// Where the embedded JPEG lies in the RAF file `s`: its offset and its
/// length are the two big-endian 32-bit numbers at offset 84. A file that
/// does not begin with the magic string is `UnrecognizedFormat`; a header
/// that is cut short is `UnexpectedEof`; a JPEG that does not lie inside
/// the file is `CorruptData`.
pub open spec fn spec_raf_jpeg(s: Seq<u8>) -> Result<Span, Error> {
    if !spec_has_at(s, 0, spec_raf_magic()) {
        Err(Error::UnrecognizedFormat)
    } else if s.len() < HEADER_LEN {
        Err(Error::UnexpectedEof)
    } else {
        let offset = spec_u32_at(s, JPEG_OFFSET_AT as int, Endian::Big);
        let length = spec_u32_at(s, JPEG_OFFSET_AT + 4, Endian::Big);
        if offset + length > s.len() {
            Err(Error::CorruptData)
        } else {
            Ok(Span { start: offset as usize, end: (offset + length) as usize })
        }
    }
}

/// Where the TIFF data lies in the RAF file `s`: where it lies in the
/// embedded JPEG, counted from the start of the file.
pub open spec fn spec_raf_exif(s: Seq<u8>) -> Result<Span, Error> {
    match spec_raf_jpeg(s) {
        Err(e) => Err(e),
        Ok(jpeg) => match spec_jpeg_exif(jpeg.of(s)) {
            Err(e) => Err(e),
            Ok(inner) => Ok(
                Span {
                    start: (jpeg.start + inner.start) as usize,
                    end: (jpeg.start + inner.end) as usize,
                },
            ),
        },
    }
}

/// Tells whether `buf` begins with the RAF magic string.
pub fn has_raf_magic(buf: &[u8]) -> (r: bool)
    ensures
        r == spec_has_at(buf@, 0, spec_raf_magic()),
{
    let magic: [u8; 15] = [
        0x46,
        0x55,
        0x4A,
        0x49,
        0x46,
        0x49,
        0x4C,
        0x4D,
        0x43,
        0x43,
        0x44,
        0x2D,
        0x52,
        0x41,
        0x57,
    ];
    assert(magic@ =~= spec_raf_magic());
    has_at(buf, 0, magic.as_slice())
}

/// Finds the embedded JPEG of a RAF file.
pub fn find_jpeg(buf: &[u8]) -> (r: Result<Span, Error>)
    ensures
        r == spec_raf_jpeg(buf@),
        r matches Ok(span) ==> span.fits(buf@.len() as int),
{
    if !has_raf_magic(buf) {
        return Err(Error::UnrecognizedFormat);
    }
    if buf.len() < HEADER_LEN {
        return Err(Error::UnexpectedEof);
    }
    let offset: u64 = read_u32(buf, JPEG_OFFSET_AT, Endian::Big).unwrap() as u64;
    let length: u64 = read_u32(buf, JPEG_OFFSET_AT + 4, Endian::Big).unwrap() as u64;
    if offset + length > buf.len() as u64 {
        return Err(Error::CorruptData);
    }
    Ok(Span { start: offset as usize, end: (offset + length) as usize })
}

/// Finds the TIFF data in a RAF file.
pub fn find_raf_exif(buf: &[u8]) -> (r: Result<Span, Error>)
    ensures
        r == spec_raf_exif(buf@),
        r matches Ok(span) ==> span.fits(buf@.len() as int),
{
    let jpeg = match find_jpeg(buf) {
        Err(e) => {
            return Err(e);
        },
        Ok(j) => j,
    };
    let inside = jpeg.slice(buf).unwrap();
    match find_exif(inside) {
        Err(e) => Err(e),
        Ok(inner) => Ok(Span { start: jpeg.start + inner.start, end: jpeg.start + inner.end }),
    }
}

} // verus!
