//! The segments of a JPEG stream, and the EXIF data among them.
//!
//! A segment is the byte `FF`, a marker byte and, for most markers, a
//! 16-bit length that counts itself and the payload. The length is taken
//! at its word: the scan data behind the start-of-scan segment is never
//! decoded.

use vstd::prelude::*;
use crate::bytes::{read_u16, spec_has_at, spec_u16_at, Endian};
use crate::error::Error;
use crate::span::Span;
use crate::tiff::{exif_ident_at, spec_exif_ident};
use crate::walker::{spec_node_ok, Container, Node};

verus! {

/// The marker of the start of the image.
pub const SOI: u8 = 0xD8;

/// The marker of the end of the image.
pub const EOI: u8 = 0xD9;

/// The marker of the start of the scan data.
pub const SOS: u8 = 0xDA;

/// The marker of the first application segment; the last is `0xEF`.
pub const APP0: u8 = 0xE0;

/// The tag of a fill byte: an `FF` that stands before the `FF` of a
/// segment.
pub const FILL: u8 = 0xFF;

/// Whether the marker stands alone, without a length and a payload.
pub open spec fn spec_stands_alone(marker: u8) -> bool {
    marker == SOI || marker == EOI || marker == 0x01 || (0xD0 <= marker <= 0xD7)
}

/// Whether the marker is that of an application segment.
pub open spec fn spec_is_app(tag: u64) -> bool {
    0xE0 <= tag <= 0xEF
}

/// The segment that starts at `at`, in a stream that ends at `end`. Its
/// tag is its marker byte.
///
/// - A first byte other than `FF` is `CorruptData`.
/// - An `FF` before another `FF` is a fill byte, a node of one byte.
/// - A marker that stands alone is a node of two bytes.
/// - The start-of-scan segment reaches to the end of the stream.
/// - Every other segment is as long as its length says; a length below
///   two, or beyond the end of the stream, is `CorruptData`.
/// - A segment whose marker or length is cut short is `UnexpectedEof`.
pub open spec fn spec_segment_at(s: Seq<u8>, at: int, end: int) -> Result<Node, Error> {
    if at >= end {
        Err(Error::UnexpectedEof)
    } else if s[at] != 0xFF {
        Err(Error::CorruptData)
    } else if end - at < 2 {
        Err(Error::UnexpectedEof)
    } else {
        let marker = s[at + 1];
        if marker == FILL {
            Ok(
                Node {
                    tag: FILL as u64,
                    whole: Span { start: at as usize, end: (at + 1) as usize },
                    body: Span { start: (at + 1) as usize, end: (at + 1) as usize },
                },
            )
        } else if spec_stands_alone(marker) {
            Ok(
                Node {
                    tag: marker as u64,
                    whole: Span { start: at as usize, end: (at + 2) as usize },
                    body: Span { start: (at + 2) as usize, end: (at + 2) as usize },
                },
            )
        } else if end - at < 4 {
            Err(Error::UnexpectedEof)
        } else {
            let length = spec_u16_at(s, at + 2, Endian::Big);
            if length < 2 || at + 2 + length > end {
                Err(Error::CorruptData)
            } else if marker == SOS {
                Ok(
                    Node {
                        tag: marker as u64,
                        whole: Span { start: at as usize, end: end as usize },
                        body: Span { start: (at + 4) as usize, end: end as usize },
                    },
                )
            } else {
                Ok(
                    Node {
                        tag: marker as u64,
                        whole: Span { start: at as usize, end: (at + 2 + length) as usize },
                        body: Span { start: (at + 4) as usize, end: (at + 2 + length) as usize },
                    },
                )
            }
        }
    }
}

/// The TIFF data of the first application segment, from `at` on, whose
/// payload begins with the EXIF signature: the payload behind the
/// signature. `None` when the scan data or the end of the image comes
/// first, or the stream ends between two segments.
pub open spec fn spec_exif_from(s: Seq<u8>, at: int, end: int) -> Result<Option<Span>, Error>
    decreases end - at,
{
    if at >= end {
        Ok(None)
    } else {
        match spec_segment_at(s, at, end) {
            Err(e) => Err(e),
            Ok(n) => {
                if n.tag == SOS || n.tag == EOI {
                    Ok(None)
                } else if spec_is_app(n.tag) && n.body.start + 6 <= n.body.end && spec_has_at(
                    s,
                    n.body.start as int,
                    spec_exif_ident(),
                ) {
                    Ok(Some(Span { start: (n.body.start + 6) as usize, end: n.body.end }))
                } else if spec_node_ok(n, at, end) {
                    spec_exif_from(s, n.whole.end as int, end)
                } else {
                    Err(Error::CorruptData)
                }
            },
        }
    }
}

/// Where the TIFF data lies in the JPEG stream `s`. A stream that does
/// not begin with the start-of-image marker is `UnrecognizedFormat`; one
/// without EXIF data is `ExifNotFound`.
pub open spec fn spec_jpeg_exif(s: Seq<u8>) -> Result<Span, Error> {
    if !(s.len() >= 2 && s[0] == 0xFF && s[1] == SOI) {
        Err(Error::UnrecognizedFormat)
    } else {
        match spec_exif_from(s, 2, s.len() as int) {
            Err(e) => Err(e),
            Ok(None) => Err(Error::ExifNotFound),
            Ok(Some(span)) => Ok(span),
        }
    }
}

/// A JPEG stream as a row of nodes. No segment is descended into.
#[derive(Clone, Copy, Debug)]
pub struct Jpeg;

impl Container for Jpeg {
    open spec fn spec_node_at(&self, s: Seq<u8>, at: int, end: int) -> Result<Node, Error> {
        spec_segment_at(s, at, end)
    }

    open spec fn spec_descends(&self, tag: u64) -> bool {
        false
    }

    proof fn lemma_node_ok(&self, s: Seq<u8>, at: int, end: int) {
    }

    fn node_at(&self, buf: &[u8], at: usize, end: usize) -> (r: Result<Node, Error>) {
        if buf[at] != 0xFF {
            return Err(Error::CorruptData);
        }
        if end - at < 2 {
            return Err(Error::UnexpectedEof);
        }
        let marker: u8 = buf[at + 1];
        if marker == FILL {
            return Ok(
                Node {
                    tag: FILL as u64,
                    whole: Span { start: at, end: at + 1 },
                    body: Span { start: at + 1, end: at + 1 },
                },
            );
        }
        if marker == SOI || marker == EOI || marker == 0x01 || (0xD0 <= marker && marker <= 0xD7) {
            return Ok(
                Node {
                    tag: marker as u64,
                    whole: Span { start: at, end: at + 2 },
                    body: Span { start: at + 2, end: at + 2 },
                },
            );
        }
        if end - at < 4 {
            return Err(Error::UnexpectedEof);
        }
        let length: usize = read_u16(buf, at + 2, Endian::Big).unwrap() as usize;
        if length < 2 || length > end - at - 2 {
            return Err(Error::CorruptData);
        }
        if marker == SOS {
            Ok(
                Node {
                    tag: marker as u64,
                    whole: Span { start: at, end },
                    body: Span { start: at + 4, end },
                },
            )
        } else {
            Ok(
                Node {
                    tag: marker as u64,
                    whole: Span { start: at, end: at + 2 + length },
                    body: Span { start: at + 4, end: at + 2 + length },
                },
            )
        }
    }

    fn descends(&self, tag: u64) -> (r: bool) {
        false
    }
}

/// Finds the TIFF data in a JPEG stream.
pub fn find_exif(buf: &[u8]) -> (r: Result<Span, Error>)
    ensures
        r == spec_jpeg_exif(buf@),
        r matches Ok(span) ==> span.fits(buf@.len() as int),
{
    let end: usize = buf.len();
    if !(end >= 2 && buf[0] == 0xFF && buf[1] == SOI) {
        return Err(Error::UnrecognizedFormat);
    }
    let mut at: usize = 2;
    while at < end
        invariant
            2 <= at <= end == buf.len(),
            buf@[0] == 0xFF && buf@[1] == SOI,
            spec_exif_from(buf@, 2, end as int) == spec_exif_from(buf@, at as int, end as int),
        decreases end - at,
    {
        match Jpeg.node_at(buf, at, end) {
            Err(e) => {
                return Err(e);
            },
            Ok(n) => {
                proof {
                    Jpeg.lemma_node_ok(buf@, at as int, end as int);
                }
                if n.tag == SOS as u64 || n.tag == EOI as u64 {
                    return Err(Error::ExifNotFound);
                }
                if 0xE0 <= n.tag && n.tag <= 0xEF && n.body.end - n.body.start >= 6 && exif_ident_at(
                    buf,
                    n.body.start,
                ) {
                    return Ok(Span { start: n.body.start + 6, end: n.body.end });
                }
                at = n.whole.end;
            },
        }
    }
    Err(Error::ExifNotFound)
}

} // verus!
