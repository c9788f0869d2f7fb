//! HEIF: the EXIF data is an item of the `meta` box. The item information
//! box says which item it is, the item location box says where it lies.

use vstd::prelude::*;
use crate::bytes::{
    read_be,
    read_u16,
    read_u32,
    spec_fold,
    spec_u16_at,
    spec_u32_at,
    Endian,
};
use crate::error::Error;
use crate::isobmff::{find_box, spec_box_at, IsoBmff};
use crate::span::Span;
use crate::walker::{spec_find, spec_node_ok, Container, Node};

verus! {

/// The box type `meta`.
pub const META: u32 = 0x6D65_7461;

/// The box type `iinf`, the item information box.
pub const IINF: u32 = 0x6969_6E66;

/// The box type `infe`, one entry of the item information box.
pub const INFE: u32 = 0x696E_6665;

/// The box type `iloc`, the item location box.
pub const ILOC: u32 = 0x696C_6F63;

/// The item type `Exif`.
pub const EXIF_ITEM: u32 = 0x4578_6966;

/// How the records of an item location box are laid out.
#[derive(Clone, Copy, Debug, PartialEq, Eq, Structural)]
pub struct IlocLayout {
    /// The version of the box: 0, 1 or 2.
    pub version: u8,
    /// The number of bytes of an extent offset: 0, 4 or 8.
    pub offset_size: usize,
    /// The number of bytes of an extent length: 0, 4 or 8.
    pub length_size: usize,
    /// The number of bytes of a base offset: 0, 4 or 8.
    pub base_offset_size: usize,
    /// The number of bytes of an extent index: 0, 4 or 8.
    pub index_size: usize,
    /// The number of items.
    pub item_count: u32,
    /// Where the record of the first item starts.
    pub items_at: usize,
}

/// A stretch of the file that holds the data of an item.
#[derive(Clone, Copy, Debug, PartialEq, Eq, Structural)]
pub struct Extent {
    /// The offset in the file.
    pub offset: u64,
    /// The length in bytes.
    pub length: u64,
}

/// The id of the item that the entry with body `body` describes, if the
/// entry is of version 2 or 3 and the type of the item is `Exif`.
pub open spec fn spec_infe_exif(s: Seq<u8>, body: Span) -> Option<u32> {
    let b = body.start as int;
    if body.spec_len() >= 12 && s[b] == 2 && spec_u32_at(s, b + 8, Endian::Big) == EXIF_ITEM {
        Some(spec_u16_at(s, b + 4, Endian::Big) as u32)
    } else if body.spec_len() >= 14 && s[b] == 3 && spec_u32_at(s, b + 10, Endian::Big)
        == EXIF_ITEM {
        Some(spec_u32_at(s, b + 4, Endian::Big) as u32)
    } else {
        None
    }
}

/// The id of the first `Exif` item among the entries in the row `at..end`.
pub open spec fn spec_scan_entries(s: Seq<u8>, at: int, end: int) -> Result<Option<u32>, Error>
    decreases end - at,
{
    if at >= end {
        Ok(None)
    } else {
        match spec_box_at(s, at, end) {
            Err(e) => Err(e),
            Ok(n) => {
                if n.tag == INFE && spec_infe_exif(s, n.body).is_some() {
                    Ok(spec_infe_exif(s, n.body))
                } else if spec_node_ok(n, at, end) {
                    spec_scan_entries(s, n.whole.end as int, end)
                } else {
                    Err(Error::CorruptData)
                }
            },
        }
    }
}

/// The id of the `Exif` item according to the item information box with
/// body `body`. The entries follow the version and flags and the entry
/// count, which is 16 bits wide in version 0 and 32 bits wide else.
pub open spec fn spec_exif_item_id(s: Seq<u8>, body: Span) -> Result<Option<u32>, Error> {
    if !body.fits(s.len() as int) || body.spec_len() < 6 {
        Err(Error::CorruptData)
    } else {
        let skip: int = if s[body.start as int] == 0 {
            6
        } else {
            8
        };
        if body.spec_len() < skip {
            Err(Error::CorruptData)
        } else {
            spec_scan_entries(s, body.start + skip, body.end as int)
        }
    }
}

/// Whether `n` is a field width that the item location box allows.
pub open spec fn spec_size_ok(n: int) -> bool {
    n == 0 || n == 4 || n == 8
}

/// The layout that the item location box with body `body` declares. The
/// two bytes behind version and flags hold four widths of four bits each:
/// of extent offsets, extent lengths, base offsets and, from version 1
/// on, extent indices. The item count is 16 bits wide before version 2
/// and 32 bits wide in it.
pub open spec fn spec_iloc_layout(s: Seq<u8>, body: Span) -> Result<IlocLayout, Error> {
    let b = body.start as int;
    if !body.fits(s.len() as int) || body.spec_len() < 8 {
        Err(Error::CorruptData)
    } else if s[b] > 2 {
        Err(Error::CorruptData)
    } else {
        let version = s[b];
        let offset_size = s[b + 4] / 16;
        let length_size = s[b + 4] % 16;
        let base_offset_size = s[b + 5] / 16;
        let index_size = if version == 0 {
            0
        } else {
            s[b + 5] % 16
        };
        if !(spec_size_ok(offset_size as int) && spec_size_ok(length_size as int) && spec_size_ok(
            base_offset_size as int,
        ) && spec_size_ok(index_size as int)) {
            Err(Error::CorruptData)
        } else if version < 2 {
            Ok(
                IlocLayout {
                    version,
                    offset_size: offset_size as usize,
                    length_size: length_size as usize,
                    base_offset_size: base_offset_size as usize,
                    index_size: index_size as usize,
                    item_count: spec_u16_at(s, b + 6, Endian::Big) as u32,
                    items_at: (b + 8) as usize,
                },
            )
        } else if body.spec_len() < 10 {
            Err(Error::CorruptData)
        } else {
            Ok(
                IlocLayout {
                    version,
                    offset_size: offset_size as usize,
                    length_size: length_size as usize,
                    base_offset_size: base_offset_size as usize,
                    index_size: index_size as usize,
                    item_count: spec_u32_at(s, b + 6, Endian::Big) as u32,
                    items_at: (b + 10) as usize,
                },
            )
        }
    }
}

impl IlocLayout {
    /// Whether the widths are among those that the box allows.
    pub open spec fn spec_valid(self) -> bool {
        &&& self.version <= 2
        &&& spec_size_ok(self.offset_size as int)
        &&& spec_size_ok(self.length_size as int)
        &&& spec_size_ok(self.base_offset_size as int)
        &&& spec_size_ok(self.index_size as int)
    }

    /// The number of bytes of an item id.
    pub open spec fn spec_id_len(self) -> int {
        if self.version < 2 {
            2
        } else {
            4
        }
    }

    /// The number of bytes of the construction method, which version 0
    /// does not have.
    pub open spec fn spec_method_len(self) -> int {
        if self.version == 0 {
            0
        } else {
            2
        }
    }

    /// The number of bytes of an item record before its extents: id,
    /// construction method, data reference index, base offset and extent
    /// count.
    pub open spec fn spec_fixed(self) -> int {
        self.spec_id_len() + self.spec_method_len() + 2 + self.base_offset_size + 2
    }

    /// The number of bytes of one extent.
    pub open spec fn spec_extent_len(self) -> int {
        self.index_size + self.offset_size + self.length_size
    }
}

/// The first extent of the item `id` among the `remaining` item records
/// that start at `at`, in a box body that ends at `end`. `None` when no
/// record has this id, or the item has no extent, or its data is not
/// addressed by file offset. A record that does not lie inside the body
/// is `CorruptData`.
pub open spec fn spec_find_item(
    s: Seq<u8>,
    l: IlocLayout,
    at: int,
    end: int,
    remaining: int,
    id: u32,
) -> Result<Option<Extent>, Error>
    decreases remaining,
{
    if remaining <= 0 {
        Ok(None)
    } else if at + l.spec_fixed() > end {
        Err(Error::CorruptData)
    } else {
        let item_id = spec_fold(0, s, at, l.spec_id_len());
        let method = if l.version == 0 {
            0
        } else {
            spec_u16_at(s, at + l.spec_id_len(), Endian::Big) % 16
        };
        let base = spec_fold(
            0,
            s,
            at + l.spec_fixed() - 2 - l.base_offset_size,
            l.base_offset_size as int,
        );
        let count = spec_u16_at(s, at + l.spec_fixed() - 2, Endian::Big);
        let first = at + l.spec_fixed();
        let next = first + count * l.spec_extent_len();
        if next > end {
            Err(Error::CorruptData)
        } else if item_id == id {
            if count == 0 || method != 0 {
                Ok(None)
            } else {
                let offset = base + spec_fold(0, s, first + l.index_size, l.offset_size as int);
                let length = spec_fold(
                    0,
                    s,
                    first + l.index_size + l.offset_size,
                    l.length_size as int,
                );
                if offset > u64::MAX {
                    Err(Error::CorruptData)
                } else {
                    Ok(Some(Extent { offset: offset as u64, length: length as u64 }))
                }
            }
        } else {
            spec_find_item(s, l, next, end, remaining - 1, id)
        }
    }
}

/// The first extent of the item `id` according to an item location box
/// with the layout `l` whose body ends at `end`. A layout with a width or
/// a version that the box does not allow, or with records outside the
/// buffer, is `CorruptData`.
pub open spec fn spec_find_in_box(s: Seq<u8>, l: IlocLayout, end: int, id: u32) -> Result<
    Option<Extent>,
    Error,
> {
    if l.spec_valid() && l.items_at <= end <= s.len() {
        spec_find_item(s, l, l.items_at as int, end, l.item_count as int, id)
    } else {
        Err(Error::CorruptData)
    }
}

/// Where the TIFF data lies in the data `x` of the `Exif` item: the data
/// begins with a 32-bit number, the count of bytes between that number
/// and the TIFF header. Data that does not lie inside the file, or a
/// count that leads out of the data, is `CorruptData`.
pub open spec fn spec_exif_payload(s: Seq<u8>, x: Extent) -> Result<Span, Error> {
    if x.offset + x.length > s.len() || x.length < 4 {
        Err(Error::CorruptData)
    } else {
        let start = x.offset + 4 + spec_u32_at(s, x.offset as int, Endian::Big);
        if start > x.offset + x.length {
            Err(Error::CorruptData)
        } else {
            Ok(Span { start: start as usize, end: (x.offset + x.length) as usize })
        }
    }
}

/// Where the TIFF data lies, given the `meta` box.
pub open spec fn spec_exif_in_meta(s: Seq<u8>, meta: Node) -> Result<Span, Error> {
    if meta.body.spec_len() < 4 {
        Err(Error::CorruptData)
    } else {
        let kids = Span { start: (meta.body.start + 4) as usize, end: meta.body.end };
        match spec_find(IsoBmff, s, kids, IINF as u64) {
            Err(e) => Err(e),
            Ok(None) => Err(Error::ExifNotFound),
            Ok(Some(iinf)) => match spec_find(IsoBmff, s, kids, ILOC as u64) {
                Err(e) => Err(e),
                Ok(None) => Err(Error::ExifNotFound),
                Ok(Some(iloc)) => match spec_exif_item_id(s, iinf.body) {
                    Err(e) => Err(e),
                    Ok(None) => Err(Error::ExifNotFound),
                    Ok(Some(id)) => match spec_iloc_layout(s, iloc.body) {
                        Err(e) => Err(e),
                        Ok(l) => match spec_find_in_box(s, l, iloc.body.end as int, id) {
                            Err(e) => Err(e),
                            Ok(None) => Err(Error::ExifNotFound),
                            Ok(Some(x)) => spec_exif_payload(s, x),
                        },
                    },
                },
            },
        }
    }
}

/// Where the TIFF data lies in the HEIF file `s`: in the `Exif` item of
/// the first `meta` box at the top level. A file without such a box or
/// such an item is `ExifNotFound`.
pub open spec fn spec_heif_exif(s: Seq<u8>) -> Result<Span, Error> {
    match spec_find(IsoBmff, s, Span { start: 0, end: s.len() as usize }, META as u64) {
        Err(e) => Err(e),
        Ok(None) => Err(Error::ExifNotFound),
        Ok(Some(meta)) => spec_exif_in_meta(s, meta),
    }
}

/// Reads the id of the item that an entry describes, if it is an `Exif`
/// item.
fn infe_exif(buf: &[u8], body: Span) -> (r: Option<u32>)
    requires
        body.fits(buf@.len() as int),
    ensures
        r == spec_infe_exif(buf@, body),
{
    let b: usize = body.start;
    let len: usize = body.end - body.start;
    if len >= 12 && buf[b] == 2 && read_u32(buf, b + 8, Endian::Big).unwrap() == EXIF_ITEM {
        Some(read_u16(buf, b + 4, Endian::Big).unwrap() as u32)
    } else if len >= 14 && buf[b] == 3 && read_u32(buf, b + 10, Endian::Big).unwrap()
        == EXIF_ITEM {
        Some(read_u32(buf, b + 4, Endian::Big).unwrap())
    } else {
        None
    }
}

/// Finds the id of the `Exif` item in the item information box with body
/// `body`.
pub fn exif_item_id(buf: &[u8], body: Span) -> (r: Result<Option<u32>, Error>)
    ensures
        r == spec_exif_item_id(buf@, body),
{
    if !(body.start <= body.end && body.end <= buf.len()) || body.end - body.start < 6 {
        return Err(Error::CorruptData);
    }
    let skip: usize = if buf[body.start] == 0 {
        6
    } else {
        8
    };
    if body.end - body.start < skip {
        return Err(Error::CorruptData);
    }
    let end: usize = body.end;
    let first: usize = body.start + skip;
    let mut at: usize = first;
    while at < end
        invariant
            first <= at <= end <= buf.len(),
            spec_exif_item_id(buf@, body) == spec_scan_entries(buf@, at as int, end as int),
        decreases end - at,
    {
        match IsoBmff.node_at(buf, at, end) {
            Err(e) => {
                return Err(e);
            },
            Ok(n) => {
                proof {
                    IsoBmff.lemma_node_ok(buf@, at as int, end as int);
                }
                if n.tag == INFE as u64 {
                    let found = infe_exif(buf, n.body);
                    if found.is_some() {
                        return Ok(found);
                    }
                }
                at = n.whole.end;
            },
        }
    }
    Ok(None)
}

/// Tells whether `n` is a field width that the item location box allows.
fn size_ok(n: u8) -> (r: bool)
    ensures
        r == spec_size_ok(n as int),
{
    n == 0 || n == 4 || n == 8
}

/// Tells whether `n` is a field width that the item location box allows.
fn size_ok_usize(n: usize) -> (r: bool)
    ensures
        r == spec_size_ok(n as int),
{
    n == 0 || n == 4 || n == 8
}

/// Reads the layout of the item location box with body `body`.
pub fn iloc_layout(buf: &[u8], body: Span) -> (r: Result<IlocLayout, Error>)
    ensures
        r == spec_iloc_layout(buf@, body),
        r matches Ok(l) ==> l.spec_valid() && body.start + 8 <= l.items_at <= body.end,
{
    if !(body.start <= body.end && body.end <= buf.len()) || body.end - body.start < 8 {
        return Err(Error::CorruptData);
    }
    let b: usize = body.start;
    let version: u8 = buf[b];
    if version > 2 {
        return Err(Error::CorruptData);
    }
    let offset_size: u8 = buf[b + 4] / 16;
    let length_size: u8 = buf[b + 4] % 16;
    let base_offset_size: u8 = buf[b + 5] / 16;
    let index_size: u8 = if version == 0 {
        0
    } else {
        buf[b + 5] % 16
    };
    if !(size_ok(offset_size) && size_ok(length_size) && size_ok(base_offset_size) && size_ok(
        index_size,
    )) {
        return Err(Error::CorruptData);
    }
    if version < 2 {
        Ok(
            IlocLayout {
                version,
                offset_size: offset_size as usize,
                length_size: length_size as usize,
                base_offset_size: base_offset_size as usize,
                index_size: index_size as usize,
                item_count: read_u16(buf, b + 6, Endian::Big).unwrap() as u32,
                items_at: b + 8,
            },
        )
    } else if body.end - body.start < 10 {
        Err(Error::CorruptData)
    } else {
        Ok(
            IlocLayout {
                version,
                offset_size: offset_size as usize,
                length_size: length_size as usize,
                base_offset_size: base_offset_size as usize,
                index_size: index_size as usize,
                item_count: read_u32(buf, b + 6, Endian::Big).unwrap(),
                items_at: b + 10,
            },
        )
    }
}

/// Finds the first extent of the item `id` among the item records of an
/// item location box whose body ends at `end`.
pub fn find_item(buf: &[u8], l: IlocLayout, end: usize, id: u32) -> (r: Result<
    Option<Extent>,
    Error,
>)
    ensures
        r == spec_find_in_box(buf@, l, end as int, id),
{
    if !(l.version <= 2 && size_ok_usize(l.offset_size) && size_ok_usize(l.length_size)
        && size_ok_usize(l.base_offset_size) && size_ok_usize(l.index_size) && l.items_at <= end
        && end <= buf.len()) {
        return Err(Error::CorruptData);
    }
    let id_len: usize = if l.version < 2 {
        2
    } else {
        4
    };
    let method_len: usize = if l.version == 0 {
        0
    } else {
        2
    };
    let fixed: usize = id_len + method_len + 2 + l.base_offset_size + 2;
    let extent_len: usize = l.index_size + l.offset_size + l.length_size;
    let mut at: usize = l.items_at;
    let mut remaining: u32 = l.item_count;
    while remaining > 0
        invariant
            l.spec_valid(),
            at <= end <= buf.len(),
            id_len == l.spec_id_len(),
            method_len == l.spec_method_len(),
            fixed == l.spec_fixed(),
            extent_len == l.spec_extent_len(),
            spec_find_in_box(buf@, l, end as int, id) == spec_find_item(
                buf@,
                l,
                at as int,
                end as int,
                remaining as int,
                id,
            ),
        decreases remaining,
    {
        if fixed > end - at {
            return Err(Error::CorruptData);
        }
        let item_id: u64 = read_be(buf, at, id_len).unwrap();
        let method: u16 = if l.version == 0 {
            0
        } else {
            read_u16(buf, at + id_len, Endian::Big).unwrap() % 16
        };
        let base: u64 = read_be(buf, at + fixed - 2 - l.base_offset_size, l.base_offset_size).unwrap();
        let count: usize = read_u16(buf, at + fixed - 2, Endian::Big).unwrap() as usize;
        let first: usize = at + fixed;
        assert(count * extent_len <= 65535 * 24) by (nonlinear_arith)
            requires
                count <= 65535,
                extent_len <= 24,
        ;
        let extents: usize = count * extent_len;
        if extents > end - first {
            return Err(Error::CorruptData);
        }
        if item_id == id as u64 {
            if count == 0 || method != 0 {
                return Ok(None);
            }
            assert(extent_len <= count * extent_len) by (nonlinear_arith)
                requires
                    count >= 1,
                    extent_len >= 0,
            ;
            let offset: u64 = read_be(buf, first + l.index_size, l.offset_size).unwrap();
            let length: u64 = read_be(
                buf,
                first + l.index_size + l.offset_size,
                l.length_size,
            ).unwrap();
            return match base.checked_add(offset) {
                None => Err(Error::CorruptData),
                Some(sum) => Ok(Some(Extent { offset: sum, length })),
            };
        }
        at = first + extents;
        remaining = remaining - 1;
    }
    Ok(None)
}

/// Finds the TIFF data in the data of the `Exif` item.
pub fn exif_payload(buf: &[u8], x: Extent) -> (r: Result<Span, Error>)
    ensures
        r == spec_exif_payload(buf@, x),
        r matches Ok(span) ==> span.fits(buf@.len() as int),
{
    let len: u64 = buf.len() as u64;
    if x.offset > len || x.length > len - x.offset || x.length < 4 {
        return Err(Error::CorruptData);
    }
    let at: usize = x.offset as usize;
    let stop: usize = at + x.length as usize;
    let skip: usize = read_u32(buf, at, Endian::Big).unwrap() as usize;
    if skip > stop - at - 4 {
        return Err(Error::CorruptData);
    }
    Ok(Span { start: at + 4 + skip, end: stop })
}

/// Finds the TIFF data in a HEIF file.
pub fn find_heif_exif(buf: &[u8]) -> (r: Result<Span, Error>)
    ensures
        r == spec_heif_exif(buf@),
        r matches Ok(span) ==> span.fits(buf@.len() as int),
{
    let meta = match find_box(buf, Span { start: 0, end: buf.len() }, META) {
        Err(e) => {
            return Err(e);
        },
        Ok(None) => {
            return Err(Error::ExifNotFound);
        },
        Ok(Some(m)) => m,
    };
    if meta.body.len() < 4 {
        return Err(Error::CorruptData);
    }
    let kids = Span { start: meta.body.start + 4, end: meta.body.end };
    let iinf = match find_box(buf, kids, IINF) {
        Err(e) => {
            return Err(e);
        },
        Ok(None) => {
            return Err(Error::ExifNotFound);
        },
        Ok(Some(n)) => n,
    };
    let iloc = match find_box(buf, kids, ILOC) {
        Err(e) => {
            return Err(e);
        },
        Ok(None) => {
            return Err(Error::ExifNotFound);
        },
        Ok(Some(n)) => n,
    };
    let id = match exif_item_id(buf, iinf.body) {
        Err(e) => {
            return Err(e);
        },
        Ok(None) => {
            return Err(Error::ExifNotFound);
        },
        Ok(Some(id)) => id,
    };
    let layout = match iloc_layout(buf, iloc.body) {
        Err(e) => {
            return Err(e);
        },
        Ok(l) => l,
    };
    match find_item(buf, layout, iloc.body.end, id) {
        Err(e) => Err(e),
        Ok(None) => Err(Error::ExifNotFound),
        Ok(Some(x)) => exif_payload(buf, x),
    }
}

} // verus!
