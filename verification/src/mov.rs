//! Finding the movie box at the top level of an ISO base media file.

use vstd::prelude::*;
use crate::error::Error;
use crate::isobmff::{header_at, spec_header_at, HeaderRead, MOOV};
use crate::loader::{Parse, Step};
use crate::span::Span;

verus! {

/// What a scan of the top-level boxes of `s` for the movie box comes to,
/// when it has reached the box that starts at `at`.
///
/// - A header that is cut short needs the bytes that it lacks.
/// - A declared size smaller than the header is `CorruptData`.
/// - The movie box is done when its body is all there, and else needs the
///   bytes that its body lacks. The result is the range of the body.
/// - Another box is stepped over when it is all there. When it is not, all
///   up to its end is to be skipped; a box that ends behind every offset a
///   source can have is `CorruptData`.
pub open spec fn spec_locate_moov(s: Seq<u8>, at: int) -> Step<Span>
    decreases s.len() - at,
{
    if at < 0 || at > s.len() {
        Step::Failed(Error::CorruptData)
    } else {
        match spec_header_at(s, at, s.len() as int) {
            HeaderRead::Short(missing) => Step::Need(missing),
            HeaderRead::Invalid => Step::Failed(Error::CorruptData),
            HeaderRead::Found(h) => {
                let stop = at + h.box_size;
                if h.box_type == MOOV {
                    if stop > s.len() {
                        Step::Need((stop - s.len()) as u64)
                    } else {
                        Step::Done(
                            Span { start: (at + h.header_len) as usize, end: stop as usize },
                        )
                    }
                } else if stop > s.len() {
                    if stop > u64::MAX {
                        Step::Failed(Error::CorruptData)
                    } else {
                        Step::Skip(stop as u64)
                    }
                } else if h.box_size >= 8 {
                    spec_locate_moov(s, stop)
                } else {
                    Step::Failed(Error::CorruptData)
                }
            },
        }
    }
}

/// Scans the top-level boxes of `buf` for the movie box and returns the
/// range of its body, or says what is missing.
pub fn extract_moov_body_from_buf(buf: &[u8]) -> (r: Step<Span>)
    ensures
        r == spec_locate_moov(buf@, 0),
        r matches Step::Done(body) ==> body.fits(buf@.len() as int),
{
    let len: usize = buf.len();
    let mut at: usize = 0;
    loop
        invariant
            at <= len == buf@.len(),
            spec_locate_moov(buf@, 0) == spec_locate_moov(buf@, at as int),
        decreases len - at,
    {
        match header_at(buf, at, len) {
            HeaderRead::Short(missing) => {
                return Step::Need(missing);
            },
            HeaderRead::Invalid => {
                return Step::Failed(Error::CorruptData);
            },
            HeaderRead::Found(h) => {
                let room: u64 = (len - at) as u64;
                if h.box_type == MOOV {
                    if h.box_size > room {
                        return Step::Need(h.box_size - room);
                    }
                    let size: usize = h.box_size as usize;
                    return Step::Done(Span { start: at + h.header_len, end: at + size });
                }
                if h.box_size > room {
                    return match (at as u64).checked_add(h.box_size) {
                        None => Step::Failed(Error::CorruptData),
                        Some(stop) => Step::Skip(stop),
                    };
                }
                at = at + h.box_size as usize;
            },
        }
    }
}

/// The parser that finds the body of the movie box.
#[derive(Clone, Copy, Debug)]
pub struct MoovLocator;

impl Parse for MoovLocator {
    type Output = Span;

    open spec fn spec_parse(&self, s: Seq<u8>) -> Step<Span> {
        spec_locate_moov(s, 0)
    }

    fn parse(&self, buf: &[u8]) -> (r: Step<Span>) {
        extract_moov_body_from_buf(buf)
    }
}

} // verus!
