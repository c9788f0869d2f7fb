//! The buffered loader: one growable buffer, filled on demand.
//!
//! A parser looks at the buffer and either finishes, fails, or says what it
//! is missing. The loader turns that into the next thing to do with the
//! byte source and keeps the books: which bytes the buffer holds and where
//! in the source they come from. The loader itself never touches a file or
//! a stream. Whoever owns the source performs the [`Action`] and hands back
//! what came of it; for a source that is already in memory,
//! [`BufLoader::load_and_parse`] runs the whole exchange.

use vstd::prelude::*;
use vstd::slice::{slice_subrange, slice_to_vec};
use crate::error::{Error, IoFault};

verus! {

/// What a parser makes of the bytes it was shown.
#[derive(Debug, PartialEq, Eq)]
pub enum Step<T> {
    /// The result.
    Done(T),
    /// So many more bytes are needed behind the end of the buffer.
    Need(u64),
    /// Nothing before this buffer offset is of use: drop everything up to
    /// it, whether it has been read yet or not.
    Skip(u64),
    /// The bytes are not what the parser expects.
    Failed(Error),
}

/// A parser that can be retried on a longer buffer.
pub trait Parse {
    /// What the parser produces.
    type Output;

    /// What the parser makes of the bytes `s`.
    spec fn spec_parse(&self, s: Seq<u8>) -> Step<Self::Output>;

    /// Runs the parser on `buf`.
    fn parse(&self, buf: &[u8]) -> (r: Step<Self::Output>)
        ensures
            r == self.spec_parse(buf@),
    ;
}

/// What a byte source can do.
#[derive(Clone, Copy, Debug, PartialEq, Eq, Structural)]
pub enum SourceKind {
    /// The source can jump to an offset without reading what lies between.
    Seekable,
    /// The source can only be read from front to back.
    ForwardOnly,
}

/// What the owner of the byte source has to do next.
#[derive(Clone, Copy, Debug, PartialEq, Eq, Structural)]
pub enum Action {
    /// Nothing: run the parser on the buffer again.
    Parse,
    /// Read at the cursor: at least `need` bytes, at most `want`, and hand
    /// them to [`BufLoader::fill`].
    Read { need: u64, want: u64 },
    /// Move the cursor to the absolute offset `to`.
    Seek { to: u64 },
    /// Read `count` bytes at the cursor and throw them away.
    Discard { count: u64 },
    /// Give up with this error.
    Fail(Error),
}

/// The least number of bytes that a read asks for.
pub const CHUNK: u64 = 4096;

/// The number of bytes that must arrive to satisfy `Need(n)`: a parser that
/// is not done needs at least one.
pub open spec fn spec_need(n: u64) -> u64 {
    if n == 0 {
        1
    } else {
        n
    }
}

/// The number of bytes that a read for `Need(n)` asks for at most.
pub open spec fn spec_want(n: u64) -> u64 {
    if spec_need(n) < CHUNK {
        CHUNK
    } else {
        spec_need(n)
    }
}

/// The result of loading from the in-memory source `src` with `parser`,
/// when the buffer holds `src[base..pos]`. It is the parser's result on the
/// first buffer on which it is done, together with the offset in `src` of
/// that buffer's first byte and the offset behind its last.
///
/// `Need(n)` extends the buffer by [`spec_want`]`(n)` bytes, or up to the end
/// of the source if fewer are left; when fewer than [`spec_need`]`(n)` are
/// left it is `UnexpectedEof`. `Skip(n)` drops the first `n` bytes of the
/// buffer and of what follows it; it is `UnexpectedEof` when the source ends
/// before that, and `CorruptData` when `n` is zero, since nothing would ever
/// change.
pub open spec fn spec_load<P: Parse>(parser: P, src: Seq<u8>, base: int, pos: int) -> Result<
    (P::Output, int, int),
    Error,
>
    decreases src.len() - base, src.len() - pos,
{
    if !(0 <= base <= pos <= src.len()) {
        Err(Error::CorruptData)
    } else {
        match parser.spec_parse(src.subrange(base, pos)) {
            Step::Done(v) => Ok((v, base, pos)),
            Step::Failed(e) => Err(e),
            Step::Need(n) => {
                if pos + spec_need(n) > src.len() {
                    Err(Error::UnexpectedEof)
                } else if pos + spec_want(n) > src.len() {
                    spec_load(parser, src, base, src.len() as int)
                } else {
                    spec_load(parser, src, base, pos + spec_want(n))
                }
            },
            Step::Skip(n) => {
                if n == 0 {
                    Err(Error::CorruptData)
                } else if base + n > src.len() {
                    Err(Error::UnexpectedEof)
                } else if base + n > pos {
                    spec_load(parser, src, base + n, base + n)
                } else {
                    spec_load(parser, src, base + n, pos)
                }
            },
        }
    }
}

/// One buffer and the place in the source that it stands for.
pub struct BufLoader {
    kind: SourceKind,
    buf: Vec<u8>,
    base: u64,
}

impl BufLoader {
    /// What the source of this loader can do.
    pub closed spec fn spec_kind(&self) -> SourceKind {
        self.kind
    }

    /// The bytes in the buffer.
    pub closed spec fn spec_buffer(&self) -> Seq<u8> {
        self.buf@
    }

    /// The offset in the source of the first byte of the buffer.
    pub closed spec fn spec_base(&self) -> u64 {
        self.base
    }

    /// The read cursor: the offset in the source behind the last byte of
    /// the buffer, where the next read takes place.
    pub open spec fn spec_cursor(&self) -> int {
        self.spec_base() + self.spec_buffer().len()
    }

    /// What the loader does about `Need(n)`.
    pub open spec fn spec_on_need(n: u64) -> Action {
        Action::Read { need: spec_need(n), want: spec_want(n) }
    }

    /// What the loader tells the owner of the source to do about `Skip(n)`.
    /// Skipping nothing is `CorruptData`, since nothing would ever change;
    /// skipping to an offset that no source can have is `UnexpectedEof`.
    pub open spec fn spec_on_skip(&self, n: u64) -> Action {
        if n == 0 {
            Action::Fail(Error::CorruptData)
        } else if self.spec_base() + n > u64::MAX {
            Action::Fail(Error::UnexpectedEof)
        } else if n <= self.spec_buffer().len() {
            Action::Parse
        } else {
            match self.spec_kind() {
                SourceKind::Seekable => Action::Seek { to: (self.spec_base() + n) as u64 },
                SourceKind::ForwardOnly => Action::Discard {
                    count: (n - self.spec_buffer().len()) as u64,
                },
            }
        }
    }

    /// What the loader tells the owner of the source to do to bring the
    /// cursor to the absolute offset `to`. A forward-only source cannot go
    /// back: that is an `OutOfOrder` failure.
    pub open spec fn spec_on_jump(&self, to: u64) -> Action {
        if to == self.spec_cursor() {
            Action::Parse
        } else if to > self.spec_cursor() {
            match self.spec_kind() {
                SourceKind::Seekable => Action::Seek { to },
                SourceKind::ForwardOnly => Action::Discard {
                    count: (to - self.spec_cursor()) as u64,
                },
            }
        } else {
            match self.spec_kind() {
                SourceKind::Seekable => Action::Seek { to },
                SourceKind::ForwardOnly => Action::Fail(Error::IoError(IoFault::OutOfOrder)),
            }
        }
    }

    /// Makes a loader with an empty buffer at the start of a source.
    pub fn new(kind: SourceKind) -> (r: BufLoader)
        ensures
            r.spec_kind() == kind,
            r.spec_buffer() == Seq::<u8>::empty(),
            r.spec_base() == 0,
    {
        BufLoader { kind, buf: Vec::new(), base: 0 }
    }

    /// Gets the loader ready for another source: the buffer is emptied, so
    /// that nothing of what was loaded before can be seen again. The
    /// storage of the buffer is kept.
    pub fn reset(&mut self, kind: SourceKind)
        ensures
            final(self).spec_kind() == kind,
            final(self).spec_buffer() == Seq::<u8>::empty(),
            final(self).spec_base() == 0,
    {
        self.kind = kind;
        self.buf.clear();
        self.base = 0;
    }

    /// Returns what the source of this loader can do.
    pub fn kind(&self) -> (k: SourceKind)
        ensures
            k == self.spec_kind(),
    {
        self.kind
    }

    /// Returns the offset in the source of the first byte of the buffer.
    pub fn base(&self) -> (b: u64)
        ensures
            b == self.spec_base(),
    {
        self.base
    }

    /// Borrows the buffer.
    pub fn buffer(&self) -> (b: &[u8])
        ensures
            b@ == self.spec_buffer(),
    {
        self.buf.as_slice()
    }

    /// Gives up the loader for its buffer.
    pub fn into_vec(self) -> (v: Vec<u8>)
        ensures
            v@ == self.spec_buffer(),
    {
        self.buf
    }

    /// Decides what to do about `Need(n)`. The loader does not change.
    pub fn on_need(&self, n: u64) -> (a: Action)
        ensures
            a == Self::spec_on_need(n),
    {
        let need: u64 = if n == 0 {
            1
        } else {
            n
        };
        let want: u64 = if need < CHUNK {
            CHUNK
        } else {
            need
        };
        Action::Read { need, want }
    }

    /// Takes in the bytes that a read for `need` bytes brought. Fewer than
    /// that, or none at all, means that the source is exhausted.
    pub fn fill(&mut self, need: u64, data: &[u8]) -> (r: Result<(), Error>)
        ensures
            final(self).spec_kind() == old(self).spec_kind(),
            final(self).spec_base() == old(self).spec_base(),
            r.is_ok() <==> data@.len() >= need && data@.len() > 0,
            r.is_ok() ==> final(self).spec_buffer() == old(self).spec_buffer() + data@,
            r.is_err() ==> r == Err::<(), Error>(Error::UnexpectedEof) && final(self).spec_buffer() == old(self).spec_buffer(),
    {
        if data.len() == 0 || (data.len() as u64) < need {
            return Err(Error::UnexpectedEof);
        }
        self.buf.extend_from_slice(data);
        Ok(())
    }

    /// Decides what to do about `Skip(n)` and drops what the buffer holds
    /// of the bytes to skip. Where the answer is `Seek` or `Discard`, the
    /// buffer is empty and stands for the place behind the skipped bytes,
    /// and the source has to be brought there.
    pub fn on_skip(&mut self, n: u64) -> (a: Action)
        ensures
            a == old(self).spec_on_skip(n),
            final(self).spec_kind() == old(self).spec_kind(),
            a is Fail ==> final(self).spec_buffer() == old(self).spec_buffer() && final(self).spec_base() == old(self).spec_base(),
            !(a is Fail) ==> final(self).spec_base() == old(self).spec_base() + n,
            a is Parse ==> final(self).spec_buffer() == old(self).spec_buffer().skip(n as int),
            (a is Seek || a is Discard) ==> final(self).spec_buffer() == Seq::<u8>::empty(),
    {
        if n == 0 {
            return Action::Fail(Error::CorruptData);
        }
        let target: u64 = match self.base.checked_add(n) {
            None => {
                return Action::Fail(Error::UnexpectedEof);
            },
            Some(t) => t,
        };
        let held: usize = self.buf.len();
        if n <= held as u64 {
            let rest = slice_to_vec(slice_subrange(self.buf.as_slice(), n as usize, held));
            proof {
                assert(rest@ =~= self.buf@.skip(n as int));
            }
            self.buf = rest;
            self.base = target;
            Action::Parse
        } else {
            self.buf.clear();
            self.base = target;
            match self.kind {
                SourceKind::Seekable => Action::Seek { to: target },
                SourceKind::ForwardOnly => Action::Discard { count: n - held as u64 },
            }
        }
    }

    /// Decides what to do to continue at the absolute offset `to`, and
    /// empties the buffer unless the cursor is there already or the jump is
    /// refused.
    pub fn on_jump(&mut self, to: u64) -> (a: Action)
        ensures
            a == old(self).spec_on_jump(to),
            final(self).spec_kind() == old(self).spec_kind(),
            (a is Parse || a is Fail) ==> final(self).spec_buffer() == old(self).spec_buffer()
                && final(self).spec_base() == old(self).spec_base(),
            (a is Seek || a is Discard) ==> final(self).spec_buffer() == Seq::<u8>::empty()
                && final(self).spec_base() == to,
    {
        let held: u64 = self.buf.len() as u64;
        let ahead: bool = to >= self.base && to - self.base >= held;
        if ahead && to - self.base == held {
            Action::Parse
        } else if ahead {
            let count: u64 = to - self.base - held;
            self.buf.clear();
            self.base = to;
            match self.kind {
                SourceKind::Seekable => Action::Seek { to },
                SourceKind::ForwardOnly => Action::Discard { count },
            }
        } else {
            match self.kind {
                SourceKind::Seekable => {
                    self.buf.clear();
                    self.base = to;
                    Action::Seek { to }
                },
                SourceKind::ForwardOnly => Action::Fail(Error::IoError(IoFault::OutOfOrder)),
            }
        }
    }

    /// Loads from a source that is wholly in memory until `parser` is done
    /// or fails, reading in chunks from front to back as a stream would be
    /// read. The loader is reset first.
    ///
    /// On success the buffer holds the stretch of `source` that the parser
    /// was done on, and offsets in the result refer to the buffer. Whatever
    /// the outcome, and whatever the loader held before, the buffer then
    /// holds nothing but bytes of `source`.
    pub fn load_and_parse<P: Parse>(&mut self, source: &[u8], parser: &P) -> (r: Result<
        P::Output,
        Error,
    >)
        ensures
            final(self).spec_kind() == old(self).spec_kind(),
            final(self).spec_buffer().len() == 0 || (final(self).spec_cursor() <= source@.len()
                && final(self).spec_buffer() == source@.subrange(
                final(self).spec_base() as int,
                final(self).spec_cursor(),
            )),
            r.is_ok() ==> final(self).spec_cursor() <= source@.len(),
            match r {
                Ok(v) => spec_load(*parser, source@, 0, 0) == Ok::<(P::Output, int, int), Error>(
                    (v, final(self).spec_base() as int, final(self).spec_cursor()),
                ),
                Err(e) => spec_load(*parser, source@, 0, 0) == Err::<(P::Output, int, int), Error>(
                    e,
                ),
            },
    {
        let kind = self.kind;
        self.reset(kind);
        let mut pos: usize = 0;
        assert(source@.subrange(0, 0) =~= Seq::<u8>::empty());
        loop
            invariant
                self.spec_kind() == old(self).spec_kind(),
                source@.len() == source.len(),
                self.spec_base() + self.spec_buffer().len() == pos,
                pos <= source@.len(),
                self.spec_buffer() == source@.subrange(self.spec_base() as int, pos as int),
                spec_load(*parser, source@, 0, 0) == spec_load(
                    *parser,
                    source@,
                    self.spec_base() as int,
                    pos as int,
                ),
            decreases source@.len() - self.spec_base(), source@.len() - pos,
        {
            let ghost before = *self;
            match parser.parse(self.buffer()) {
                Step::Done(v) => {
                    return Ok(v);
                },
                Step::Failed(e) => {
                    return Err(e);
                },
                Step::Need(n) => {
                    match self.on_need(n) {
                        Action::Read { need, want } => {
                            let room: usize = source.len() - pos;
                            let take: usize = if want >= room as u64 {
                                room
                            } else {
                                want as usize
                            };
                            let chunk = slice_subrange(source, pos, pos + take);
                            match self.fill(need, chunk) {
                                Err(e) => {
                                    return Err(e);
                                },
                                Ok(()) => {
                                    proof {
                                        assert(self.spec_buffer() =~= source@.subrange(
                                            self.spec_base() as int,
                                            pos + take,
                                        ));
                                    }
                                    pos = pos + take;
                                },
                            }
                        },
                        _ => {
                            return Err(Error::CorruptData);
                        },
                    }
                },
                Step::Skip(n) => {
                    match self.on_skip(n) {
                        Action::Parse => {
                            proof {
                                assert(self.spec_buffer() =~= source@.subrange(
                                    self.spec_base() as int,
                                    pos as int,
                                ));
                            }
                        },
                        Action::Seek { to } => {
                            if to > source.len() as u64 {
                                return Err(Error::UnexpectedEof);
                            }
                            pos = to as usize;
                            proof {
                                assert(self.spec_buffer() =~= source@.subrange(
                                    self.spec_base() as int,
                                    pos as int,
                                ));
                            }
                        },
                        Action::Discard { count } => {
                            if count > (source.len() - pos) as u64 {
                                return Err(Error::UnexpectedEof);
                            }
                            pos = pos + count as usize;
                            proof {
                                assert(self.spec_buffer() =~= source@.subrange(
                                    self.spec_base() as int,
                                    pos as int,
                                ));
                            }
                        },
                        Action::Fail(e) => {
                            return Err(e);
                        },
                        Action::Read { .. } => {
                            return Err(Error::CorruptData);
                        },
                    }
                },
            }
        }
    }
}

/// A forward-only source is never asked for a byte behind its cursor: the
/// loader tells it to read on or to discard, both from the cursor onward,
/// and refuses a jump backward with `OutOfOrder`. Only a seekable source is
/// ever told to seek.
pub proof fn lemma_forward_only_never_rewinds(loader: BufLoader, n: u64, to: u64)
    requires
        loader.spec_kind() == SourceKind::ForwardOnly,
    ensures
        !(BufLoader::spec_on_need(n) is Seek),
        !(loader.spec_on_skip(n) is Seek),
        !(loader.spec_on_jump(to) is Seek),
        to < loader.spec_cursor() ==> loader.spec_on_jump(to) == Action::Fail(
            Error::IoError(IoFault::OutOfOrder),
        ),
        loader.spec_on_jump(to) matches Action::Discard { count } ==> loader.spec_cursor() + count
            == to,
        loader.spec_on_skip(n) matches Action::Discard { count } ==> loader.spec_cursor() + count
            == loader.spec_base() + n,
{
}

} // verus!
