//! Walking the image file directories of TIFF data, one entry at a time.
//!
//! The walk is depth first and keeps its place on an explicit stack: an
//! entry that points to a sub-directory is handed out, then the entries of
//! that directory, then the rest of the directory it stood in. Every
//! directory offset that is entered is remembered, and entering one a
//! second time ends the walk with `CorruptData`. So the walk ends, however
//! the offsets in the data point at each other.

use vstd::prelude::*;
use crate::bytes::{read_u16, read_u32, spec_u16_at, spec_u32_at, Endian};
use crate::error::Error;
use crate::tiff::{
    parse_entry,
    parse_tiff_header,
    resolve,
    spec_entry_at,
    spec_resolve,
    spec_tiff_header,
    EntryValue,
    IfdEntry,
    TiffHeader,
    ValueModel,
};

verus! {

/// The directory that an entry was found in.
#[derive(Clone, Copy, Debug, PartialEq, Eq, Structural)]
pub enum IfdOrigin {
    /// The chain of directories that starts at the header.
    Primary,
    /// The EXIF directory.
    Exif,
    /// The GPS directory.
    Gps,
    /// The interoperability directory.
    Interop,
    /// A directory inside a maker note. The walk of this crate never
    /// enters a maker note; the kind is there for decoders that do.
    MakerNote,
}

/// The tag of the entry that points to the EXIF directory.
pub const EXIF_IFD_POINTER: u16 = 0x8769;

/// The tag of the entry that points to the GPS directory.
pub const GPS_IFD_POINTER: u16 = 0x8825;

/// The tag of the entry that points to the interoperability directory.
pub const INTEROP_IFD_POINTER: u16 = 0xA005;

/// The code of the data type `LONG`.
pub const LONG: u16 = 4;

/// An entry together with the directory it was found in. Its value is
/// decoded only when [`ExifIter::value`] is called.
#[derive(Clone, Copy, Debug, PartialEq, Eq, Structural)]
pub struct ParsedExifEntry {
    /// The directory that the entry was found in.
    pub origin: IfdOrigin,
    /// The entry as it was read.
    pub entry: IfdEntry,
}

/// A place inside a directory that has been entered.
#[derive(Clone, Copy, Debug, PartialEq, Eq, Structural)]
pub struct Cursor {
    /// The directory that is being read.
    pub origin: IfdOrigin,
    /// Where the next record starts; behind the last record, where the
    /// offset of the next directory stands.
    pub at: usize,
    /// The number of records that are still to be read.
    pub remaining: u16,
}

/// A directory that is to be entered next.
#[derive(Clone, Copy, Debug, PartialEq, Eq, Structural)]
pub struct Pending {
    /// The offset of the directory.
    pub offset: u32,
    /// What the entries of the directory are to be marked with.
    pub origin: IfdOrigin,
}

/// The state of a walk.
#[verifier::ext_equal]
pub struct WalkState {
    /// The offsets of the directories entered so far.
    pub visited: Seq<u32>,
    /// The directories that are being read, the innermost last.
    pub stack: Seq<Cursor>,
    /// The directory to enter before anything else is read.
    pub pending: Option<Pending>,
}

/// The state of a walk that has ended.
pub open spec fn spec_ended(m: WalkState) -> WalkState {
    WalkState { visited: m.visited, stack: Seq::empty(), pending: None }
}

/// The state in which a walk starts, given the header of the data.
pub open spec fn spec_start(h: TiffHeader) -> WalkState {
    WalkState {
        visited: Seq::empty(),
        stack: Seq::empty(),
        pending: if h.first_ifd == 0 {
            None
        } else {
            Some(Pending { offset: h.first_ifd, origin: IfdOrigin::Primary })
        },
    }
}

/// The sub-directory that `entry` points to, if it is a pointer: a single
/// `LONG` under one of the three pointer tags.
pub open spec fn spec_pointer(entry: IfdEntry) -> Option<Pending> {
    if entry.data_type != LONG || entry.count != 1 {
        None
    } else if entry.tag == EXIF_IFD_POINTER {
        Some(Pending { offset: entry.value_offset, origin: IfdOrigin::Exif })
    } else if entry.tag == GPS_IFD_POINTER {
        Some(Pending { offset: entry.value_offset, origin: IfdOrigin::Gps })
    } else if entry.tag == INTEROP_IFD_POINTER {
        Some(Pending { offset: entry.value_offset, origin: IfdOrigin::Interop })
    } else {
        None
    }
}

/// The number of records of the directory at `offset`. A directory whose
/// count, records or next-directory offset do not lie inside the data is
/// `CorruptData`.
pub open spec fn spec_ifd_count(s: Seq<u8>, e: Endian, offset: u32) -> Result<u16, Error> {
    if offset + 2 > s.len() {
        Err(Error::CorruptData)
    } else {
        let n = spec_u16_at(s, offset as int, e);
        if offset + 2 + 12 * n + 4 > s.len() {
            Err(Error::CorruptData)
        } else {
            Ok(n as u16)
        }
    }
}

/// Whether the records that `c` has still to read, and the offset behind
/// them, lie inside data of `len` bytes.
pub open spec fn spec_cursor_fits(c: Cursor, len: int) -> bool {
    c.at + 12 * c.remaining + 4 <= len
}

/// Whether every directory that is being read lies inside the data.
pub open spec fn spec_state_fits(m: WalkState, len: int) -> bool {
    forall|i: int| 0 <= i < m.stack.len() ==> spec_cursor_fits(#[trigger] m.stack[i], len)
}

/// The number of offsets below `n` that are not in `visited`.
pub open spec fn spec_unvisited(visited: Seq<u32>, n: nat) -> nat
    decreases n,
{
    if n == 0 {
        0
    } else {
        spec_unvisited(visited, (n - 1) as nat) + if spec_seen(visited, n - 1) {
            0nat
        } else {
            1nat
        }
    }
}

/// Whether the offset `k` is in `visited`.
pub open spec fn spec_seen(visited: Seq<u32>, k: int) -> bool {
    exists|i: int| 0 <= i < visited.len() && #[trigger] visited[i] == k
}

/// The number of steps that the directories on the stack can still take:
/// one for each record to read, and one to leave each directory.
pub open spec fn spec_weight(stack: Seq<Cursor>) -> nat
    decreases stack.len(),
{
    if stack.len() == 0 {
        0
    } else {
        spec_weight(stack.drop_last()) + stack.last().remaining as nat + 1
    }
}

/// One if a directory waits to be entered, else zero.
pub open spec fn spec_waiting(pending: Option<Pending>) -> nat {
    if pending.is_some() {
        1
    } else {
        0
    }
}

/// Remembering one more offset never raises the number of offsets that are
/// left.
pub proof fn lemma_unvisited_mono(visited: Seq<u32>, o: u32, n: nat)
    ensures
        spec_unvisited(visited.push(o), n) <= spec_unvisited(visited, n),
    decreases n,
{
    if n > 0 {
        lemma_unvisited_mono(visited, o, (n - 1) as nat);
        if spec_seen(visited, n - 1) {
            let i = choose|i: int| 0 <= i < visited.len() && #[trigger] visited[i] == n - 1;
            assert(visited.push(o)[i] == n - 1);
        }
    }
}

/// Remembering an offset that is new, and that lies below `n`, lowers the
/// number of offsets below `n` that are left.
pub proof fn lemma_unvisited_push(visited: Seq<u32>, o: u32, n: nat)
    requires
        !visited.contains(o),
        o < n,
    ensures
        spec_unvisited(visited.push(o), n) < spec_unvisited(visited, n),
    decreases n,
{
    let more = visited.push(o);
    if n - 1 == o {
        lemma_unvisited_mono(visited, o, (n - 1) as nat);
        assert(more[visited.len() as int] == o);
        assert(spec_seen(more, n - 1));
        if spec_seen(visited, n - 1) {
            let i = choose|i: int| 0 <= i < visited.len() && #[trigger] visited[i] == n - 1;
            assert(visited.contains(o));
        }
    } else {
        lemma_unvisited_push(visited, o, (n - 1) as nat);
        if spec_seen(visited, n - 1) {
            let i = choose|i: int| 0 <= i < visited.len() && #[trigger] visited[i] == n - 1;
            assert(more[i] == n - 1);
        }
    }
}

/// What the next call on a walk in state `m` hands out, and the state that
/// it leaves the walk in.
///
/// - A directory that waits is entered first. If its offset was entered
///   before, or it does not lie inside the data, the walk ends with
///   `CorruptData`.
/// - Else the innermost directory yields its next record, marked with the
///   origin of that directory. If the record points to a sub-directory,
///   that directory waits to be entered.
/// - A directory without records left is left; if the offset behind its
///   records is not zero, the directory at that offset waits to be entered,
///   under the same origin.
/// - With no directory left, the walk is over.
pub open spec fn spec_next(s: Seq<u8>, e: Endian, m: WalkState) -> (
    WalkState,
    Option<Result<ParsedExifEntry, Error>>,
)
    decreases spec_unvisited(m.visited, s.len()), spec_weight(m.stack), spec_waiting(m.pending),
{
    match m.pending {
        Some(p) => {
            if m.visited.contains(p.offset) {
                (spec_ended(m), Some(Err(Error::CorruptData)))
            } else {
                match spec_ifd_count(s, e, p.offset) {
                    Err(err) => (spec_ended(m), Some(Err(err))),
                    Ok(n) => {
                        proof {
                            lemma_unvisited_push(m.visited, p.offset, s.len());
                        }
                        spec_next(
                            s,
                            e,
                            WalkState {
                                visited: m.visited.push(p.offset),
                                stack: m.stack.push(
                                    Cursor {
                                        origin: p.origin,
                                        at: (p.offset + 2) as usize,
                                        remaining: n,
                                    },
                                ),
                                pending: None,
                            },
                        )
                    },
                }
            }
        },
        None => {
            if m.stack.len() == 0 {
                (m, None)
            } else {
                let top = m.stack.last();
                if top.remaining > 0 {
                    let entry = spec_entry_at(s, top.at as int, e);
                    (
                        WalkState {
                            visited: m.visited,
                            stack: m.stack.drop_last().push(
                                Cursor {
                                    origin: top.origin,
                                    at: (top.at + 12) as usize,
                                    remaining: (top.remaining - 1) as u16,
                                },
                            ),
                            pending: spec_pointer(entry),
                        },
                        Some(Ok(ParsedExifEntry { origin: top.origin, entry })),
                    )
                } else {
                    let next = spec_u32_at(s, top.at as int, e) as u32;
                    spec_next(
                        s,
                        e,
                        WalkState {
                            visited: m.visited,
                            stack: m.stack.drop_last(),
                            pending: if next == 0 {
                                None
                            } else {
                                Some(Pending { offset: next, origin: top.origin })
                            },
                        },
                    )
                }
            }
        },
    }
}

/// A call that hands out an entry leaves the walk with less to do: fewer
/// offsets left to enter, or as many and fewer steps on the stack. It also
/// keeps every directory on the stack inside the data.
pub proof fn lemma_next_progress(s: Seq<u8>, e: Endian, m: WalkState)
    requires
        spec_state_fits(m, s.len() as int),
        s.len() <= usize::MAX,
    ensures
        spec_state_fits(spec_next(s, e, m).0, s.len() as int),
        spec_next(s, e, m).1 matches Some(Ok(_)) ==> {
            let m2 = spec_next(s, e, m).0;
            ||| spec_unvisited(m2.visited, s.len()) < spec_unvisited(m.visited, s.len())
            ||| (spec_unvisited(m2.visited, s.len()) == spec_unvisited(m.visited, s.len())
                && spec_weight(m2.stack) < spec_weight(m.stack))
        },
        !(spec_next(s, e, m).1 matches Some(Ok(_))) ==> spec_next(s, e, m).0.stack.len() == 0
            && spec_next(s, e, m).0.pending.is_none(),
    decreases spec_unvisited(m.visited, s.len()), spec_weight(m.stack), spec_waiting(m.pending),
{
    match m.pending {
        Some(p) => {
            if !m.visited.contains(p.offset) {
                match spec_ifd_count(s, e, p.offset) {
                    Err(_) => {},
                    Ok(n) => {
                        lemma_unvisited_push(m.visited, p.offset, s.len());
                        let c = Cursor {
                            origin: p.origin,
                            at: (p.offset + 2) as usize,
                            remaining: n,
                        };
                        let m1 = WalkState {
                            visited: m.visited.push(p.offset),
                            stack: m.stack.push(c),
                            pending: None,
                        };
                        assert(spec_cursor_fits(c, s.len() as int));
                        assert forall|i: int| 0 <= i < m1.stack.len() implies spec_cursor_fits(
                            #[trigger] m1.stack[i],
                            s.len() as int,
                        ) by {
                            if i < m.stack.len() {
                                assert(m1.stack[i] == m.stack[i]);
                            }
                        }
                        lemma_next_progress(s, e, m1);
                    },
                }
            }
        },
        None => {
            if m.stack.len() > 0 {
                let top = m.stack.last();
                assert(spec_cursor_fits(m.stack[m.stack.len() - 1], s.len() as int));
                if top.remaining > 0 {
                    let c = Cursor {
                        origin: top.origin,
                        at: (top.at + 12) as usize,
                        remaining: (top.remaining - 1) as u16,
                    };
                    let st = m.stack.drop_last().push(c);
                    assert(st.drop_last() =~= m.stack.drop_last());
                    assert(st.last() == c);
                    assert forall|i: int| 0 <= i < st.len() implies spec_cursor_fits(
                        #[trigger] st[i],
                        s.len() as int,
                    ) by {
                        if i < st.len() - 1 {
                            assert(st[i] == m.stack[i]);
                        }
                    }
                } else {
                    let next = spec_u32_at(s, top.at as int, e) as u32;
                    let m1 = WalkState {
                        visited: m.visited,
                        stack: m.stack.drop_last(),
                        pending: if next == 0 {
                            None
                        } else {
                            Some(Pending { offset: next, origin: top.origin })
                        },
                    };
                    assert forall|i: int| 0 <= i < m1.stack.len() implies spec_cursor_fits(
                        #[trigger] m1.stack[i],
                        s.len() as int,
                    ) by {
                        assert(m1.stack[i] == m.stack[i]);
                    }
                    lemma_next_progress(s, e, m1);
                }
            }
        },
    }
}

/// Everything that a walk from state `m` hands out before it ends, and the
/// failure that it ends with, if it ends with one.
pub open spec fn spec_walk(s: Seq<u8>, e: Endian, m: WalkState) -> (
    Seq<ParsedExifEntry>,
    Option<Error>,
)
    decreases spec_unvisited(m.visited, s.len()), spec_weight(m.stack),
    when spec_state_fits(m, s.len() as int) && s.len() <= usize::MAX
{
    let (m2, r) = spec_next(s, e, m);
    match r {
        None => (Seq::empty(), None),
        Some(Err(err)) => (Seq::empty(), Some(err)),
        Some(Ok(entry)) => {
            proof {
                lemma_next_progress(s, e, m);
            }
            let (rest, end) = spec_walk(s, e, m2);
            (seq![entry] + rest, end)
        },
    }
}

/// Tells whether `offset` is among `visited`.
fn is_visited(visited: &Vec<u32>, offset: u32) -> (r: bool)
    ensures
        r == visited@.contains(offset),
{
    let mut i: usize = 0;
    while i < visited.len()
        invariant
            i <= visited.len(),
            forall|k: int| 0 <= k < i ==> visited@[k] != offset,
        decreases visited.len() - i,
    {
        if visited[i] == offset {
            return true;
        }
        i += 1;
    }
    false
}

/// Returns the sub-directory that `entry` points to, if it is a pointer.
pub fn pointer_of(entry: &IfdEntry) -> (r: Option<Pending>)
    ensures
        r == spec_pointer(*entry),
{
    if entry.data_type != LONG || entry.count != 1 {
        None
    } else if entry.tag == EXIF_IFD_POINTER {
        Some(Pending { offset: entry.value_offset, origin: IfdOrigin::Exif })
    } else if entry.tag == GPS_IFD_POINTER {
        Some(Pending { offset: entry.value_offset, origin: IfdOrigin::Gps })
    } else if entry.tag == INTEROP_IFD_POINTER {
        Some(Pending { offset: entry.value_offset, origin: IfdOrigin::Interop })
    } else {
        None
    }
}

/// Reads the number of records of the directory at `offset`.
pub fn ifd_count(data: &[u8], e: Endian, offset: u32) -> (r: Result<u16, Error>)
    ensures
        r == spec_ifd_count(data@, e, offset),
{
    let len: usize = data.len();
    if len < 2 || offset as u64 > (len - 2) as u64 {
        return Err(Error::CorruptData);
    }
    let at: usize = offset as usize;
    let n: u16 = read_u16(data, at, e).unwrap();
    let needed: usize = 12 * (n as usize) + 4;
    if needed > len - (at + 2) {
        return Err(Error::CorruptData);
    }
    Ok(n)
}

/// A walk over the entries of TIFF data. It owns the data, so that entries
/// can be decoded for as long as the walk lives.
pub struct ExifIter {
    data: Vec<u8>,
    endian: Endian,
    visited: Vec<u32>,
    stack: Vec<Cursor>,
    pending: Option<Pending>,
}

impl ExifIter {
    /// The TIFF data that is walked.
    pub closed spec fn spec_data(&self) -> Seq<u8> {
        self.data@
    }

    /// The byte order of the data.
    pub closed spec fn spec_endian(&self) -> Endian {
        self.endian
    }

    /// The state of the walk.
    pub closed spec fn spec_state(&self) -> WalkState {
        WalkState { visited: self.visited@, stack: self.stack@, pending: self.pending }
    }

    /// Whether the walk is sound: the directories that are being read lie
    /// inside the data. [`ExifIter::new`] makes it so, and every method
    /// keeps it so.
    pub open spec fn wf(&self) -> bool {
        spec_state_fits(self.spec_state(), self.spec_data().len() as int)
    }

    /// Starts a walk over `data`, which has to begin with a TIFF header.
    pub fn new(data: Vec<u8>) -> (r: Result<ExifIter, Error>)
        ensures
            match r {
                Ok(it) => spec_tiff_header(data@) matches Ok(h) && it.spec_data() == data@
                    && it.spec_endian() == h.endian && it.spec_state() == spec_start(h) && it.wf(),
                Err(e) => spec_tiff_header(data@) == Err::<TiffHeader, Error>(e),
            },
    {
        match parse_tiff_header(data.as_slice()) {
            Err(e) => Err(e),
            Ok(h) => {
                let pending = if h.first_ifd == 0 {
                    None
                } else {
                    Some(Pending { offset: h.first_ifd, origin: IfdOrigin::Primary })
                };
                Ok(
                    ExifIter {
                        data,
                        endian: h.endian,
                        visited: Vec::new(),
                        stack: Vec::new(),
                        pending,
                    },
                )
            },
        }
    }

    /// Borrows the TIFF data.
    pub fn data(&self) -> (d: &[u8])
        ensures
            d@ == self.spec_data(),
    {
        self.data.as_slice()
    }

    /// Returns the byte order of the data.
    pub fn endian(&self) -> (e: Endian)
        ensures
            e == self.spec_endian(),
    {
        self.endian
    }

    /// Decodes the value of `entry`. A failure concerns this entry alone:
    /// the walk is not touched.
    pub fn value(&self, entry: &ParsedExifEntry) -> (r: Result<EntryValue, Error>)
        ensures
            match r {
                Ok(v) => spec_resolve(self.spec_data(), self.spec_endian(), entry.entry) == Ok::<
                    ValueModel,
                    Error,
                >(v@),
                Err(err) => spec_resolve(self.spec_data(), self.spec_endian(), entry.entry)
                    == Err::<ValueModel, Error>(err),
            },
    {
        resolve(self.data.as_slice(), self.endian, &entry.entry)
    }

    /// Ends the walk: whatever is called next finds nothing left.
    fn end(&mut self)
        ensures
            final(self).spec_data() == old(self).spec_data(),
            final(self).spec_endian() == old(self).spec_endian(),
            final(self).spec_state() == spec_ended(old(self).spec_state()),
            final(self).wf(),
    {
        self.stack.clear();
        self.pending = None;
    }

    /// Hands out the next entry, `None` when the walk is over. A failure
    /// ends the walk: the call after it returns `None`.
    pub fn next(&mut self) -> (r: Option<Result<ParsedExifEntry, Error>>)
        requires
            old(self).wf(),
        ensures
            final(self).wf(),
            final(self).spec_data() == old(self).spec_data(),
            final(self).spec_endian() == old(self).spec_endian(),
            final(self).spec_state() == spec_next(
                old(self).spec_data(),
                old(self).spec_endian(),
                old(self).spec_state(),
            ).0,
            r == spec_next(
                old(self).spec_data(),
                old(self).spec_endian(),
                old(self).spec_state(),
            ).1,
    {
        let ghost s = self.data@;
        let ghost e = self.endian;
        let ghost start = self.spec_state();
        assert(s.len() <= usize::MAX) by {
            assert(self.data.len() <= usize::MAX);
        }
        loop
            invariant
                self.wf(),
                self.data@ == s,
                self.endian == e,
                s == old(self).spec_data(),
                e == old(self).spec_endian(),
                start == old(self).spec_state(),
                s.len() <= usize::MAX,
                spec_next(s, e, start) == spec_next(s, e, self.spec_state()),
            decreases
                    spec_unvisited(self.visited@, s.len()),
                    spec_weight(self.stack@),
                    spec_waiting(self.pending),
        {
            let ghost m = self.spec_state();
            match self.pending {
                Some(p) => {
                    if is_visited(&self.visited, p.offset) {
                        self.end();
                        return Some(Err(Error::CorruptData));
                    }
                    match ifd_count(self.data.as_slice(), self.endian, p.offset) {
                        Err(err) => {
                            self.end();
                            return Some(Err(err));
                        },
                        Ok(n) => {
                            let c = Cursor {
                                origin: p.origin,
                                at: p.offset as usize + 2,
                                remaining: n,
                            };
                            proof {
                                lemma_unvisited_push(m.visited, p.offset, s.len());
                                assert(spec_cursor_fits(c, s.len() as int));
                            }
                            self.visited.push(p.offset);
                            self.stack.push(c);
                            self.pending = None;
                            proof {
                                assert forall|i: int|
                                    0 <= i < self.stack@.len() implies spec_cursor_fits(
                                    #[trigger] self.stack@[i],
                                    s.len() as int,
                                ) by {
                                    if i < m.stack.len() {
                                        assert(self.stack@[i] == m.stack[i]);
                                    }
                                }
                            }
                        },
                    }
                },
                None => {
                    let depth: usize = self.stack.len();
                    if depth == 0 {
                        return None;
                    }
                    let top: Cursor = self.stack[depth - 1];
                    assert(spec_cursor_fits(m.stack[depth - 1], s.len() as int));
                    if top.remaining > 0 {
                        let entry = parse_entry(self.data.as_slice(), top.at, self.endian).unwrap();
                        let c = Cursor {
                            origin: top.origin,
                            at: top.at + 12,
                            remaining: top.remaining - 1,
                        };
                        self.stack.pop();
                        self.stack.push(c);
                        self.pending = pointer_of(&entry);
                        proof {
                            assert(self.stack@ =~= m.stack.drop_last().push(c));
                            assert forall|i: int|
                                0 <= i < self.stack@.len() implies spec_cursor_fits(
                                #[trigger] self.stack@[i],
                                s.len() as int,
                            ) by {
                                if i < depth - 1 {
                                    assert(self.stack@[i] == m.stack[i]);
                                }
                            }
                        }
                        return Some(Ok(ParsedExifEntry { origin: top.origin, entry }));
                    }
                    let next: u32 = read_u32(self.data.as_slice(), top.at, self.endian).unwrap();
                    self.stack.pop();
                    self.pending = if next == 0 {
                        None
                    } else {
                        Some(Pending { offset: next, origin: top.origin })
                    };
                    proof {
                        assert(self.stack@ =~= m.stack.drop_last());
                        assert forall|i: int| 0 <= i < self.stack@.len() implies spec_cursor_fits(
                            #[trigger] self.stack@[i],
                            s.len() as int,
                        ) by {
                            assert(self.stack@[i] == m.stack[i]);
                        }
                    }
                },
            }
        }
    }

    /// Runs the walk to its end and returns the entries that it hands out,
    /// in order, and the failure that ended it, if one did. The entries
    /// that came before a failure are kept.
    pub fn collect(&mut self) -> (r: (Vec<ParsedExifEntry>, Option<Error>))
        requires
            old(self).wf(),
        ensures
            final(self).wf(),
            final(self).spec_data() == old(self).spec_data(),
            final(self).spec_endian() == old(self).spec_endian(),
            final(self).spec_state().stack.len() == 0,
            final(self).spec_state().pending.is_none(),
            (r.0@, r.1) == spec_walk(
                old(self).spec_data(),
                old(self).spec_endian(),
                old(self).spec_state(),
            ),
    {
        let ghost s = self.data@;
        let ghost e = self.endian;
        let ghost start = self.spec_state();
        let mut out: Vec<ParsedExifEntry> = Vec::new();
        assert(s.len() <= usize::MAX) by {
            assert(self.data.len() <= usize::MAX);
        }
        loop
            invariant
                self.wf(),
                self.data@ == s,
                self.endian == e,
                s == old(self).spec_data(),
                e == old(self).spec_endian(),
                start == old(self).spec_state(),
                s.len() <= usize::MAX,
                spec_walk(s, e, start) == ({
                    let (rest, end) = spec_walk(s, e, self.spec_state());
                    (out@ + rest, end)
                }),
            decreases spec_unvisited(self.visited@, s.len()), spec_weight(self.stack@),
        {
            let ghost m = self.spec_state();
            proof {
                lemma_next_progress(s, e, m);
            }
            match self.next() {
                None => {
                    assert(out@ + Seq::<ParsedExifEntry>::empty() =~= out@);
                    return (out, None);
                },
                Some(Err(err)) => {
                    assert(out@ + Seq::<ParsedExifEntry>::empty() =~= out@);
                    return (out, Some(err));
                },
                Some(Ok(entry)) => {
                    proof {
                        let (rest, end) = spec_walk(s, e, self.spec_state());
                        assert(out@ + (seq![entry] + rest) =~= out@.push(entry) + rest);
                    }
                    out.push(entry);
                },
            }
        }
    }
}

/// An upper bound on the number of entries that a walk in state `m` can
/// still hand out: the steps left on the stack, and 65536 for every offset
/// that a directory could still be entered at, since a directory has at
/// most 65535 records and takes one more step to leave.
pub open spec fn spec_budget(len: nat, m: WalkState) -> nat {
    spec_weight(m.stack) + 65536 * spec_unvisited(m.visited, len)
}

/// No more offsets are left than there are.
pub proof fn lemma_unvisited_at_most(visited: Seq<u32>, n: nat)
    ensures
        spec_unvisited(visited, n) <= n,
    decreases n,
{
    if n > 0 {
        lemma_unvisited_at_most(visited, (n - 1) as nat);
    }
}

/// A call never raises the bound, and lowers it when it hands out an
/// entry.
pub proof fn lemma_next_spends(s: Seq<u8>, e: Endian, m: WalkState)
    ensures
        spec_budget(s.len(), spec_next(s, e, m).0) + (if spec_next(s, e, m).1 matches Some(Ok(_)) {
            1int
        } else {
            0int
        }) <= spec_budget(s.len(), m),
    decreases spec_unvisited(m.visited, s.len()), spec_weight(m.stack), spec_waiting(m.pending),
{
    match m.pending {
        Some(p) => {
            if !m.visited.contains(p.offset) {
                match spec_ifd_count(s, e, p.offset) {
                    Err(_) => {},
                    Ok(n) => {
                        lemma_unvisited_push(m.visited, p.offset, s.len());
                        let c = Cursor {
                            origin: p.origin,
                            at: (p.offset + 2) as usize,
                            remaining: n,
                        };
                        let m1 = WalkState {
                            visited: m.visited.push(p.offset),
                            stack: m.stack.push(c),
                            pending: None,
                        };
                        assert(m1.stack.drop_last() =~= m.stack);
                        lemma_next_spends(s, e, m1);
                    },
                }
            }
        },
        None => {
            if m.stack.len() > 0 {
                let top = m.stack.last();
                if top.remaining > 0 {
                    let c = Cursor {
                        origin: top.origin,
                        at: (top.at + 12) as usize,
                        remaining: (top.remaining - 1) as u16,
                    };
                    assert(m.stack.drop_last().push(c).drop_last() =~= m.stack.drop_last());
                } else {
                    let next = spec_u32_at(s, top.at as int, e) as u32;
                    let m1 = WalkState {
                        visited: m.visited,
                        stack: m.stack.drop_last(),
                        pending: if next == 0 {
                            None
                        } else {
                            Some(Pending { offset: next, origin: top.origin })
                        },
                    };
                    lemma_next_spends(s, e, m1);
                }
            }
        },
    }
}

/// A walk hands out no more entries than its bound allows.
pub proof fn lemma_walk_within_budget(s: Seq<u8>, e: Endian, m: WalkState)
    requires
        spec_state_fits(m, s.len() as int),
        s.len() <= usize::MAX,
    ensures
        spec_walk(s, e, m).0.len() <= spec_budget(s.len(), m),
    decreases spec_unvisited(m.visited, s.len()), spec_weight(m.stack),
{
    lemma_next_spends(s, e, m);
    lemma_next_progress(s, e, m);
    let (m2, r) = spec_next(s, e, m);
    match r {
        Some(Ok(_)) => {
            lemma_walk_within_budget(s, e, m2);
        },
        _ => {},
    }
}

/// However the offsets in the data point at each other, a walk from the
/// header ends after at most 65536 entries for every byte of the data.
pub proof fn lemma_walk_ends(s: Seq<u8>, h: TiffHeader)
    requires
        s.len() <= usize::MAX,
    ensures
        spec_walk(s, h.endian, spec_start(h)).0.len() <= 65536 * s.len(),
{
    lemma_walk_within_budget(s, h.endian, spec_start(h));
    lemma_unvisited_at_most(Seq::<u32>::empty(), s.len());
}

/// A directory that was entered before is never entered again: when the
/// directory that waits has an offset that the walk remembers, whether the
/// offset came from the chain of next-directory offsets or from a pointer
/// entry, the walk ends there with `CorruptData`.
pub proof fn lemma_revisit_is_corrupt(s: Seq<u8>, e: Endian, m: WalkState)
    requires
        m.pending matches Some(p) && m.visited.contains(p.offset),
    ensures
        spec_next(s, e, m).1 == Some(Err::<ParsedExifEntry, Error>(Error::CorruptData)),
        spec_next(s, e, m).0 == spec_ended(m),
        spec_next(s, e, spec_ended(m)).1.is_none(),
{
}

} // verus!
