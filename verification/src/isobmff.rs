//! The box tree of the ISO base media file format.
//!
//! A box is a size, a four-character type and a body; a body may itself be a
//! row of boxes. The tag of a box is its type, read as a big-endian number.

use vstd::prelude::*;
use crate::bytes::{read_u32, read_u64, spec_u32_at, spec_u64_at, Endian};
use crate::error::Error;
use crate::span::Span;
use crate::walker::{
    find,
    lemma_children_within_parent,
    spec_children,
    spec_find,
    spec_total_size,
    Container,
    Node,
};

verus! {

/// The size value that announces a 64-bit size after the type.
pub const LARGE_BOX: u32 = 1;

/// The number that stands for the four characters of a box type.
pub open spec fn spec_fourcc(a: u8, b: u8, c: u8, d: u8) -> u32 {
    (a * 0x100_0000 + b * 0x1_0000 + c * 0x100 + d) as u32
}

/// Returns the number that stands for the four characters of a box type.
pub fn fourcc(a: u8, b: u8, c: u8, d: u8) -> (r: u32)
    ensures
        r == spec_fourcc(a, b, c, d),
{
    (a as u32) * 0x100_0000 + (b as u32) * 0x1_0000 + (c as u32) * 0x100 + (d as u32)
}

/// What the eight or sixteen bytes of a box header say.
#[derive(Clone, Copy, Debug, PartialEq, Eq, Structural)]
pub struct BoxHeader {
    /// The four characters of the type, read as a big-endian number.
    pub box_type: u32,
    /// The length of the header itself: 8, or 16 with a 64-bit size.
    pub header_len: usize,
    /// The declared size of the box, header included.
    pub box_size: u64,
}

/// The outcome of reading a box header from a buffer that may end early.
#[derive(Clone, Copy, Debug, PartialEq, Eq, Structural)]
pub enum HeaderRead {
    /// The buffer ends inside the header; so many bytes are missing.
    Short(u64),
    /// The declared size is smaller than the header.
    Invalid,
    /// A complete header.
    Found(BoxHeader),
}

/// The header that starts at `at`, of which the bytes up to `end` are at
/// hand.
///
/// The header is eight bytes, a 32-bit size and the type, followed by a
/// 64-bit size when the first size is [`LARGE_BOX`].
pub open spec fn spec_header_at(s: Seq<u8>, at: int, end: int) -> HeaderRead {
    if end - at < 8 {
        HeaderRead::Short((8 - (end - at)) as u64)
    } else {
        let size32 = spec_u32_at(s, at, Endian::Big);
        let box_type = spec_u32_at(s, at + 4, Endian::Big) as u32;
        if size32 == LARGE_BOX {
            if end - at < 16 {
                HeaderRead::Short((16 - (end - at)) as u64)
            } else {
                let size = spec_u64_at(s, at + 8, Endian::Big);
                if size < 16 {
                    HeaderRead::Invalid
                } else {
                    HeaderRead::Found(
                        BoxHeader { box_type, header_len: 16, box_size: size as u64 },
                    )
                }
            }
        } else if size32 < 8 {
            HeaderRead::Invalid
        } else {
            HeaderRead::Found(BoxHeader { box_type, header_len: 8, box_size: size32 as u64 })
        }
    }
}

/// The box whose header starts at `at`, in a row of boxes that ends at `end`.
///
/// A header that is cut short is `UnexpectedEof`; a size smaller than the
/// header, or larger than what is left of the row, is `CorruptData`.
pub open spec fn spec_box_at(s: Seq<u8>, at: int, end: int) -> Result<Node, Error> {
    match spec_header_at(s, at, end) {
        HeaderRead::Short(_) => Err(Error::UnexpectedEof),
        HeaderRead::Invalid => Err(Error::CorruptData),
        HeaderRead::Found(h) => {
            if h.box_size > end - at {
                Err(Error::CorruptData)
            } else {
                Ok(
                    Node {
                        tag: h.box_type as u64,
                        whole: Span { start: at as usize, end: (at + h.box_size) as usize },
                        body: Span {
                            start: (at + h.header_len) as usize,
                            end: (at + h.box_size) as usize,
                        },
                    },
                )
            }
        },
    }
}

/// The box type `moov`.
pub const MOOV: u32 = 0x6D6F_6F76;

/// The box type `trak`.
pub const TRAK: u32 = 0x7472_616B;

/// The box type `mdia`.
pub const MDIA: u32 = 0x6D64_6961;

/// The box type `minf`.
pub const MINF: u32 = 0x6D69_6E66;

/// The box type `stbl`.
pub const STBL: u32 = 0x7374_626C;

/// The box type `udta`.
pub const UDTA: u32 = 0x7564_7461;

/// Whether a box of this type is a plain row of boxes that can hold
/// metadata somewhere below it.
pub open spec fn spec_is_container(tag: u64) -> bool {
    tag == MOOV || tag == TRAK || tag == MDIA || tag == MINF || tag == STBL || tag == UDTA
}

/// Reads the header that starts at `at`, of which the bytes up to `end`
/// are at hand.
pub(crate) fn header_at(buf: &[u8], at: usize, end: usize) -> (r: HeaderRead)
    requires
        at <= end <= buf@.len(),
    ensures
        r == spec_header_at(buf@, at as int, end as int),
{
    let avail: usize = end - at;
    if avail < 8 {
        return HeaderRead::Short((8 - avail) as u64);
    }
    let size32 = read_u32(buf, at, Endian::Big).unwrap();
    let box_type = read_u32(buf, at + 4, Endian::Big).unwrap();
    if size32 == LARGE_BOX {
        if avail < 16 {
            return HeaderRead::Short((16 - avail) as u64);
        }
        let size = read_u64(buf, at + 8, Endian::Big).unwrap();
        if size < 16 {
            HeaderRead::Invalid
        } else {
            HeaderRead::Found(BoxHeader { box_type, header_len: 16, box_size: size })
        }
    } else if size32 < 8 {
        HeaderRead::Invalid
    } else {
        HeaderRead::Found(BoxHeader { box_type, header_len: 8, box_size: size32 as u64 })
    }
}

/// Reads the header at the start of `span`, which may be cut short.
pub fn read_header(buf: &[u8], span: Span) -> (r: Option<HeaderRead>)
    ensures
        r.is_some() <==> span.fits(buf@.len() as int),
        r matches Some(h) ==> h == spec_header_at(buf@, span.start as int, span.end as int),
{
    if span.start <= span.end && span.end <= buf.len() {
        Some(header_at(buf, span.start, span.end))
    } else {
        None
    }
}

/// The ISO base media file format as a tree of nodes. A depth-first walk
/// descends into `moov`, `trak`, `mdia`, `minf`, `stbl` and `udta`, and
/// steps over everything else, media data included.
#[derive(Clone, Copy, Debug)]
pub struct IsoBmff;

impl Container for IsoBmff {
    open spec fn spec_node_at(&self, s: Seq<u8>, at: int, end: int) -> Result<Node, Error> {
        spec_box_at(s, at, end)
    }

    open spec fn spec_descends(&self, tag: u64) -> bool {
        spec_is_container(tag)
    }

    proof fn lemma_node_ok(&self, s: Seq<u8>, at: int, end: int) {
    }

    fn node_at(&self, buf: &[u8], at: usize, end: usize) -> (r: Result<Node, Error>) {
        match header_at(buf, at, end) {
            HeaderRead::Short(_) => Err(Error::UnexpectedEof),
            HeaderRead::Invalid => Err(Error::CorruptData),
            HeaderRead::Found(h) => {
                if h.box_size > (end - at) as u64 {
                    Err(Error::CorruptData)
                } else {
                    let size: usize = h.box_size as usize;
                    Ok(
                        Node {
                            tag: h.box_type as u64,
                            whole: Span { start: at, end: at + size },
                            body: Span { start: at + h.header_len, end: at + size },
                        },
                    )
                }
            },
        }
    }

    fn descends(&self, tag: u64) -> (r: bool) {
        tag == MOOV as u64 || tag == TRAK as u64 || tag == MDIA as u64 || tag == MINF as u64 || tag
            == STBL as u64 || tag == UDTA as u64
    }
}

/// Finds the first box of type `box_type` among the boxes of `span`.
pub fn find_box(buf: &[u8], span: Span, box_type: u32) -> (r: Result<Option<Node>, Error>)
    ensures
        r == spec_find(IsoBmff, buf@, span, box_type as u64),
{
    find(&IsoBmff, buf, span, box_type as u64)
}

/// The boxes in a box never claim more than the box has: where the body
/// of `parent` reads as a row of boxes, their declared sizes add up to no
/// more than the declared size of `parent`, and the range of each lies in
/// the range of `parent`.
pub proof fn lemma_boxes_within_parent(s: Seq<u8>, parent: Node)
    requires
        s.len() <= usize::MAX,
        parent.body.within(parent.whole),
        parent.whole.fits(s.len() as int),
        spec_children(IsoBmff, s, parent.body).is_ok(),
    ensures
        ({
            let kids = spec_children(IsoBmff, s, parent.body).unwrap();
            &&& spec_total_size(kids) <= parent.whole.spec_len()
            &&& forall|i: int|
                0 <= i < kids.len() ==> (#[trigger] kids[i]).whole.within(parent.whole)
                    && kids[i].body.within(parent.whole)
        }),
{
    lemma_children_within_parent(IsoBmff, s, parent);
}

} // verus!
