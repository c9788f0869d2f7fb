//! Borrowed byte ranges: a start and an end into a buffer owned elsewhere.

use vstd::prelude::*;
use vstd::slice::slice_subrange;

verus! {

/// A half-open range of byte offsets, `start..end`, into some buffer.
/// It borrows nothing: it is meaningful only together with the buffer that
/// it was computed from.
#[derive(Clone, Copy, Debug, PartialEq, Eq, Structural)]
pub struct Span {
    /// Offset of the first byte.
    pub start: usize,
    /// Offset one past the last byte.
    pub end: usize,
}

impl Span {
    /// The number of bytes in the range; zero when `end` lies before `start`.
    pub open spec fn spec_len(self) -> int {
        if self.start <= self.end {
            self.end - self.start
        } else {
            0
        }
    }

    /// Whether the range lies inside a buffer of `len` bytes.
    pub open spec fn fits(self, len: int) -> bool {
        self.start <= self.end <= len
    }

    /// Whether every offset of this range is an offset of `outer`.
    pub open spec fn within(self, outer: Span) -> bool {
        outer.start <= self.start <= self.end <= outer.end
    }

    /// The bytes of `s` that the range covers.
    pub open spec fn of(self, s: Seq<u8>) -> Seq<u8> {
        s.subrange(self.start as int, self.end as int)
    }

    /// The range that covers a whole buffer of `len` bytes.
    pub fn whole(len: usize) -> (r: Span)
        ensures
            r == (Span { start: 0, end: len }),
    {
        Span { start: 0, end: len }
    }

    /// Returns the number of bytes in the range.
    pub fn len(&self) -> (n: usize)
        ensures
            n == self.spec_len(),
    {
        if self.start <= self.end {
            self.end - self.start
        } else {
            0
        }
    }

    /// Borrows the bytes that the range covers, if it lies inside `buf`.
    pub fn slice<'a>(&self, buf: &'a [u8]) -> (r: Option<&'a [u8]>)
        ensures
            r.is_some() <==> self.fits(buf@.len() as int),
            r matches Some(bytes) ==> bytes@ == self.of(buf@),
    {
        if self.start <= self.end && self.end <= buf.len() {
            Some(slice_subrange(buf, self.start, self.end))
        } else {
            None
        }
    }
}

} // verus!
