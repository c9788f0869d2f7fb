//! The element tree of EBML, the container of Matroska and WebM.
//!
//! An element is an id, a size and a body. Id and size are numbers of one
//! to eight bytes whose length shows in the first byte: the number of zero
//! bits before the first one bit, plus one. That first one bit is part of
//! an id and is not part of a size.

use vstd::prelude::*;
use crate::bytes::{fold_bytes, lemma_fold_bound, spec_fold};
use crate::error::Error;
use crate::span::Span;
use crate::walker::{Container, Node};

verus! {

/// The id of the EBML header element.
pub const EBML_HEADER: u64 = 0x1A45_DFA3;

/// The id of the segment element.
pub const SEGMENT: u64 = 0x1853_8067;

/// The id of the segment information element.
pub const INFO: u64 = 0x1549_A966;

/// The id of the tracks element.
pub const TRACKS: u64 = 0x1654_AE6B;

/// The id of a track entry element.
pub const TRACK_ENTRY: u64 = 0xAE;

/// The id of the video settings element of a track.
pub const VIDEO: u64 = 0xE0;

/// A variable-length number as it was read.
#[derive(Clone, Copy, Debug, PartialEq, Eq, Structural)]
pub struct Vint {
    /// The number of bytes that it takes.
    pub len: usize,
    /// The number with the length mark in it; this is what an id is.
    pub raw: u64,
    /// The number without the length mark; this is what a size is.
    pub value: u64,
}

/// The length in bytes of a number whose first byte is `b0`; zero when no
/// bit of `b0` is set, which no number starts with.
pub open spec fn spec_vint_len(b0: u8) -> int {
    if b0 >= 0x80 {
        1
    } else if b0 >= 0x40 {
        2
    } else if b0 >= 0x20 {
        3
    } else if b0 >= 0x10 {
        4
    } else if b0 >= 0x08 {
        5
    } else if b0 >= 0x04 {
        6
    } else if b0 >= 0x02 {
        7
    } else if b0 >= 0x01 {
        8
    } else {
        0
    }
}

/// The length mark in the first byte of a number of `len` bytes.
pub open spec fn spec_mark(len: int) -> int {
    if len == 1 {
        0x80
    } else if len == 2 {
        0x40
    } else if len == 3 {
        0x20
    } else if len == 4 {
        0x10
    } else if len == 5 {
        0x08
    } else if len == 6 {
        0x04
    } else if len == 7 {
        0x02
    } else {
        0x01
    }
}

/// The size value of `len` bytes that says that the size is not known: all
/// bits behind the length mark are set.
pub open spec fn spec_unknown_size(len: int) -> int {
    if len == 1 {
        0x7F
    } else if len == 2 {
        0x3FFF
    } else if len == 3 {
        0x1F_FFFF
    } else if len == 4 {
        0x0FFF_FFFF
    } else if len == 5 {
        0x07_FFFF_FFFF
    } else if len == 6 {
        0x03FF_FFFF_FFFF
    } else if len == 7 {
        0x01_FFFF_FFFF_FFFF
    } else {
        0x00FF_FFFF_FFFF_FFFF
    }
}

/// The variable-length number at `at`, in a row that ends at `end`. A
/// number that is cut short is `UnexpectedEof`; a first byte of zero is
/// `CorruptData`.
pub open spec fn spec_vint_at(s: Seq<u8>, at: int, end: int) -> Result<Vint, Error> {
    if at >= end {
        Err(Error::UnexpectedEof)
    } else {
        let len = spec_vint_len(s[at]);
        if len == 0 {
            Err(Error::CorruptData)
        } else if at + len > end {
            Err(Error::UnexpectedEof)
        } else {
            Ok(
                Vint {
                    len: len as usize,
                    raw: spec_fold(s[at] as int, s, at + 1, len - 1) as u64,
                    value: spec_fold(s[at] - spec_mark(len), s, at + 1, len - 1) as u64,
                },
            )
        }
    }
}

/// The element whose id starts at `at`, in a row that ends at `end`. Its
/// tag is its id. An element of unknown size reaches to the end of the
/// row; a size that is larger than what is left of the row is
/// `CorruptData`.
pub open spec fn spec_element_at(s: Seq<u8>, at: int, end: int) -> Result<Node, Error> {
    match spec_vint_at(s, at, end) {
        Err(e) => Err(e),
        Ok(id) => match spec_vint_at(s, at + id.len, end) {
            Err(e) => Err(e),
            Ok(size) => {
                let start = at + id.len + size.len;
                if size.value == spec_unknown_size(size.len as int) {
                    Ok(
                        Node {
                            tag: id.raw,
                            whole: Span { start: at as usize, end: end as usize },
                            body: Span { start: start as usize, end: end as usize },
                        },
                    )
                } else if size.value > end - start {
                    Err(Error::CorruptData)
                } else {
                    Ok(
                        Node {
                            tag: id.raw,
                            whole: Span { start: at as usize, end: (start + size.value) as usize },
                            body: Span {
                                start: start as usize,
                                end: (start + size.value) as usize,
                            },
                        },
                    )
                }
            },
        },
    }
}

/// Whether an element with this id is a row of elements that can hold
/// metadata somewhere below it.
pub open spec fn spec_is_master(tag: u64) -> bool {
    tag == SEGMENT || tag == INFO || tag == TRACKS || tag == TRACK_ENTRY || tag == VIDEO
}

/// The unsigned number in the body of an element: its bytes, at most
/// eight, read as one big-endian number.
pub open spec fn spec_uint(s: Seq<u8>, body: Span) -> Option<u64> {
    if body.fits(s.len() as int) && body.spec_len() <= 8 {
        Some(spec_fold(0, s, body.start as int, body.spec_len()) as u64)
    } else {
        None
    }
}

/// Reads the variable-length number at `at` in a row that ends at `end`.
pub(crate) fn vint_at(buf: &[u8], at: usize, end: usize) -> (r: Result<Vint, Error>)
    requires
        at <= end <= buf@.len(),
    ensures
        r == spec_vint_at(buf@, at as int, end as int),
        r matches Ok(v) ==> 1 <= v.len <= 8 && at + v.len <= end,
{
    if at >= end {
        return Err(Error::UnexpectedEof);
    }
    let b0: u8 = buf[at];
    let (len, mark): (usize, u8) = if b0 >= 0x80 {
        (1, 0x80)
    } else if b0 >= 0x40 {
        (2, 0x40)
    } else if b0 >= 0x20 {
        (3, 0x20)
    } else if b0 >= 0x10 {
        (4, 0x10)
    } else if b0 >= 0x08 {
        (5, 0x08)
    } else if b0 >= 0x04 {
        (6, 0x04)
    } else if b0 >= 0x02 {
        (7, 0x02)
    } else if b0 >= 0x01 {
        (8, 0x01)
    } else {
        return Err(Error::CorruptData);
    };
    if len > end - at {
        return Err(Error::UnexpectedEof);
    }
    let raw = fold_bytes(buf, at + 1, len - 1, b0 as u64, Ghost(1));
    let value = fold_bytes(buf, at + 1, len - 1, (b0 - mark) as u64, Ghost(1));
    Ok(Vint { len, raw, value })
}

/// Reads the variable-length number at the start of `span`.
pub fn read_vint(buf: &[u8], span: Span) -> (r: Result<Vint, Error>)
    ensures
        span.fits(buf@.len() as int) ==> r == spec_vint_at(
            buf@,
            span.start as int,
            span.end as int,
        ),
        !span.fits(buf@.len() as int) ==> r == Err::<Vint, Error>(Error::CorruptData),
{
    if span.start <= span.end && span.end <= buf.len() {
        vint_at(buf, span.start, span.end)
    } else {
        Err(Error::CorruptData)
    }
}

/// Returns the size value of `len` bytes that says that the size is not
/// known.
fn unknown_size(len: usize) -> (r: u64)
    requires
        1 <= len <= 8,
    ensures
        r == spec_unknown_size(len as int),
{
    if len == 1 {
        0x7F
    } else if len == 2 {
        0x3FFF
    } else if len == 3 {
        0x1F_FFFF
    } else if len == 4 {
        0x0FFF_FFFF
    } else if len == 5 {
        0x07_FFFF_FFFF
    } else if len == 6 {
        0x03FF_FFFF_FFFF
    } else if len == 7 {
        0x01_FFFF_FFFF_FFFF
    } else {
        0x00FF_FFFF_FFFF_FFFF
    }
}

/// Reads the unsigned number in the body of an element.
pub fn element_uint(buf: &[u8], body: Span) -> (r: Option<u64>)
    ensures
        r == spec_uint(buf@, body),
{
    if body.start <= body.end && body.end <= buf.len() && body.end - body.start <= 8 {
        let n: usize = body.end - body.start;
        proof {
            lemma_fold_bound(0, buf@, body.start as int, n as int, 0);
        }
        Some(fold_bytes(buf, body.start, n, 0, Ghost(0)))
    } else {
        None
    }
}

/// EBML as a tree of nodes. A depth-first walk descends into the segment,
/// the segment information, the tracks, each track entry and its video
/// settings, and steps over everything else, clusters of media data
/// included.
#[derive(Clone, Copy, Debug)]
pub struct Ebml;

impl Container for Ebml {
    open spec fn spec_node_at(&self, s: Seq<u8>, at: int, end: int) -> Result<Node, Error> {
        spec_element_at(s, at, end)
    }

    open spec fn spec_descends(&self, tag: u64) -> bool {
        spec_is_master(tag)
    }

    proof fn lemma_node_ok(&self, s: Seq<u8>, at: int, end: int) {
        let id = spec_vint_at(s, at, end).unwrap();
        let size = spec_vint_at(s, at + id.len, end).unwrap();
        lemma_fold_bound(
            s[at + id.len] - spec_mark(size.len as int),
            s,
            at + id.len + 1,
            size.len - 1,
            1,
        );
    }

    fn node_at(&self, buf: &[u8], at: usize, end: usize) -> (r: Result<Node, Error>) {
        let id = match vint_at(buf, at, end) {
            Err(e) => {
                return Err(e);
            },
            Ok(v) => v,
        };
        let size = match vint_at(buf, at + id.len, end) {
            Err(e) => {
                return Err(e);
            },
            Ok(v) => v,
        };
        let start: usize = at + id.len + size.len;
        if size.value == unknown_size(size.len) {
            Ok(Node { tag: id.raw, whole: Span { start: at, end }, body: Span { start, end } })
        } else if size.value > (end - start) as u64 {
            Err(Error::CorruptData)
        } else {
            let stop: usize = start + size.value as usize;
            Ok(
                Node {
                    tag: id.raw,
                    whole: Span { start: at, end: stop },
                    body: Span { start, end: stop },
                },
            )
        }
    }

    fn descends(&self, tag: u64) -> (r: bool) {
        tag == SEGMENT || tag == INFO || tag == TRACKS || tag == TRACK_ENTRY || tag == VIDEO
    }
}

} // verus!
