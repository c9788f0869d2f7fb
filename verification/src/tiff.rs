//! TIFF structure: the header, directory entries and their values.

use vstd::prelude::*;
use vstd::slice::{slice_subrange, slice_to_vec};
use crate::bytes::{
    has_at,
    i16_of,
    i32_of,
    i8_of,
    put_u32,
    read_u16,
    read_u32,
    read_u64,
    spec_i16_of,
    spec_i32_of,
    spec_has_at,
    spec_i8_of,
    spec_u16_at,
    lemma_u32_round_trip,
    lemma_u32_same_bytes,
    spec_u32_at,
    spec_u32_bytes,
    spec_u64_at,
    Endian,
};
use crate::error::Error;

verus! {

/// What the eight bytes of a TIFF header say.
#[derive(Clone, Copy, Debug, PartialEq, Eq, Structural)]
pub struct TiffHeader {
    /// The byte order of every number in the data.
    pub endian: Endian,
    /// The offset of the first directory; zero when there is none.
    pub first_ifd: u32,
}

/// The header at the start of `s`: the byte-order mark `II` or `MM`, the
/// number 42 and the offset of the first directory, both in that byte
/// order. Fewer than eight bytes are `UnexpectedEof`; another mark or
/// number is `CorruptData`.
pub open spec fn spec_tiff_header(s: Seq<u8>) -> Result<TiffHeader, Error> {
    if s.len() < 8 {
        Err(Error::UnexpectedEof)
    } else if s[0] == 0x49 && s[1] == 0x49 && s[2] == 0x2A && s[3] == 0x00 {
        Ok(
            TiffHeader {
                endian: Endian::Little,
                first_ifd: spec_u32_at(s, 4, Endian::Little) as u32,
            },
        )
    } else if s[0] == 0x4D && s[1] == 0x4D && s[2] == 0x00 && s[3] == 0x2A {
        Ok(TiffHeader { endian: Endian::Big, first_ifd: spec_u32_at(s, 4, Endian::Big) as u32 })
    } else {
        Err(Error::CorruptData)
    }
}

/// Reads the TIFF header at the start of `data`.
pub fn parse_tiff_header(data: &[u8]) -> (r: Result<TiffHeader, Error>)
    ensures
        r == spec_tiff_header(data@),
{
    if data.len() < 8 {
        Err(Error::UnexpectedEof)
    } else if data[0] == 0x49 && data[1] == 0x49 && data[2] == 0x2A && data[3] == 0x00 {
        let first_ifd = read_u32(data, 4, Endian::Little).unwrap();
        Ok(TiffHeader { endian: Endian::Little, first_ifd })
    } else if data[0] == 0x4D && data[1] == 0x4D && data[2] == 0x00 && data[3] == 0x2A {
        let first_ifd = read_u32(data, 4, Endian::Big).unwrap();
        Ok(TiffHeader { endian: Endian::Big, first_ifd })
    } else {
        Err(Error::CorruptData)
    }
}

/// The six bytes `Exif\0\0` that announce TIFF data inside another format.
pub open spec fn spec_exif_ident() -> Seq<u8> {
    seq![0x45u8, 0x78u8, 0x69u8, 0x66u8, 0u8, 0u8]
}

/// Whether `s` begins with a TIFF header: the byte-order mark `II` or `MM`,
/// the number 42 in that byte order, and the four bytes of the offset of
/// the first directory.
pub open spec fn spec_is_tiff_header(s: Seq<u8>) -> bool {
    spec_tiff_header(s).is_ok()
}

/// Tells whether the EXIF signature stands at `at` in `data`.
pub fn exif_ident_at(data: &[u8], at: usize) -> (r: bool)
    ensures
        r == spec_has_at(data@, at as int, spec_exif_ident()),
{
    let ident: [u8; 6] = [0x45, 0x78, 0x69, 0x66, 0, 0];
    assert(ident@ =~= spec_exif_ident());
    has_at(data, at, ident.as_slice())
}

/// Tells whether `data` begins with the EXIF signature.
pub fn check_exif_header(data: &[u8]) -> (r: bool)
    ensures
        r == spec_has_at(data@, 0, spec_exif_ident()),
{
    exif_ident_at(data, 0)
}

/// Tells whether `data` begins with a TIFF header.
pub fn is_tiff_header(data: &[u8]) -> (r: bool)
    ensures
        r == spec_is_tiff_header(data@),
{
    parse_tiff_header(data).is_ok()
}

/// The type of the components of a value.
#[derive(Clone, Copy, Debug, PartialEq, Eq, Structural)]
pub enum DataType {
    /// Code 1: unsigned 8-bit.
    Byte,
    /// Code 2: 8-bit characters.
    Ascii,
    /// Code 3: unsigned 16-bit.
    Short,
    /// Code 4: unsigned 32-bit.
    Long,
    /// Code 5: two unsigned 32-bit numbers, numerator and denominator.
    Rational,
    /// Code 6: signed 8-bit.
    SByte,
    /// Code 7: bytes without interpretation.
    Undefined,
    /// Code 8: signed 16-bit.
    SShort,
    /// Code 9: signed 32-bit.
    SLong,
    /// Code 10: two signed 32-bit numbers, numerator and denominator.
    SRational,
    /// Code 11: IEEE 754 single precision.
    Float,
    /// Code 12: IEEE 754 double precision.
    Double,
}

impl DataType {
    /// The type that `code` stands for, if it is one of the twelve.
    pub open spec fn spec_from_code(code: u16) -> Option<DataType> {
        if code == 1 {
            Some(DataType::Byte)
        } else if code == 2 {
            Some(DataType::Ascii)
        } else if code == 3 {
            Some(DataType::Short)
        } else if code == 4 {
            Some(DataType::Long)
        } else if code == 5 {
            Some(DataType::Rational)
        } else if code == 6 {
            Some(DataType::SByte)
        } else if code == 7 {
            Some(DataType::Undefined)
        } else if code == 8 {
            Some(DataType::SShort)
        } else if code == 9 {
            Some(DataType::SLong)
        } else if code == 10 {
            Some(DataType::SRational)
        } else if code == 11 {
            Some(DataType::Float)
        } else if code == 12 {
            Some(DataType::Double)
        } else {
            None
        }
    }

    /// The number of bytes of one component.
    pub open spec fn spec_size(self) -> int {
        match self {
            DataType::Byte | DataType::Ascii | DataType::SByte | DataType::Undefined => 1,
            DataType::Short | DataType::SShort => 2,
            DataType::Long | DataType::SLong | DataType::Float => 4,
            DataType::Rational | DataType::SRational | DataType::Double => 8,
        }
    }

    /// The number of bytes of `count` components.
    pub open spec fn spec_total(self, count: int) -> int {
        match self {
            DataType::Byte | DataType::Ascii | DataType::SByte | DataType::Undefined => count,
            DataType::Short | DataType::SShort => 2 * count,
            DataType::Long | DataType::SLong | DataType::Float => 4 * count,
            DataType::Rational | DataType::SRational | DataType::Double => 8 * count,
        }
    }

    /// Returns the type that `code` stands for, if it is one of the twelve.
    pub fn from_code(code: u16) -> (r: Option<DataType>)
        ensures
            r == Self::spec_from_code(code),
    {
        match code {
            1 => Some(DataType::Byte),
            2 => Some(DataType::Ascii),
            3 => Some(DataType::Short),
            4 => Some(DataType::Long),
            5 => Some(DataType::Rational),
            6 => Some(DataType::SByte),
            7 => Some(DataType::Undefined),
            8 => Some(DataType::SShort),
            9 => Some(DataType::SLong),
            10 => Some(DataType::SRational),
            11 => Some(DataType::Float),
            12 => Some(DataType::Double),
            _ => None,
        }
    }

    /// Returns the number of bytes of one component.
    pub fn size(&self) -> (n: usize)
        ensures
            n == self.spec_size(),
    {
        match *self {
            DataType::Byte | DataType::Ascii | DataType::SByte | DataType::Undefined => 1,
            DataType::Short | DataType::SShort => 2,
            DataType::Long | DataType::SLong | DataType::Float => 4,
            DataType::Rational | DataType::SRational | DataType::Double => 8,
        }
    }

    /// Returns the number of bytes of `count` components.
    pub fn total(&self, count: u32) -> (n: u64)
        ensures
            n == self.spec_total(count as int),
            n == self.spec_size() * count,
    {
        let c: u64 = count as u64;
        match *self {
            DataType::Byte | DataType::Ascii | DataType::SByte | DataType::Undefined => c,
            DataType::Short | DataType::SShort => 2 * c,
            DataType::Long | DataType::SLong | DataType::Float => 4 * c,
            DataType::Rational | DataType::SRational | DataType::Double => 8 * c,
        }
    }
}

/// One twelve-byte record of a directory, as it was read. It says where
/// the value is; the value itself is read only when it is asked for.
#[derive(Clone, Copy, Debug, PartialEq, Eq, Structural)]
pub struct IfdEntry {
    /// The tag.
    pub tag: u16,
    /// The code of the data type; see [`DataType::from_code`].
    pub data_type: u16,
    /// The number of components.
    pub count: u32,
    /// The last four bytes of the record, read as a number: the offset of
    /// the value when the value is longer than four bytes.
    pub value_offset: u32,
    /// Where those four bytes stand: the place of the value when it is at
    /// most four bytes long.
    pub field_at: usize,
}

/// The record that starts at `at`.
pub open spec fn spec_entry_at(s: Seq<u8>, at: int, e: Endian) -> IfdEntry {
    IfdEntry {
        tag: spec_u16_at(s, at, e) as u16,
        data_type: spec_u16_at(s, at + 2, e) as u16,
        count: spec_u32_at(s, at + 4, e) as u32,
        value_offset: spec_u32_at(s, at + 8, e) as u32,
        field_at: (at + 8) as usize,
    }
}

/// Reads the record that starts at `at`, if its twelve bytes are there.
pub fn parse_entry(data: &[u8], at: usize, e: Endian) -> (r: Option<IfdEntry>)
    ensures
        r.is_some() <==> at + 12 <= data@.len(),
        r matches Some(entry) ==> entry == spec_entry_at(data@, at as int, e),
{
    if data.len() < 12 || at > data.len() - 12 {
        return None;
    }
    let tag = read_u16(data, at, e).unwrap();
    let data_type = read_u16(data, at + 2, e).unwrap();
    let count = read_u32(data, at + 4, e).unwrap();
    let value_offset = read_u32(data, at + 8, e).unwrap();
    Some(IfdEntry { tag, data_type, count, value_offset, field_at: at + 8 })
}

/// A decoded value: the components of one data type, in order. A single
/// value is a sequence of one.
#[derive(Debug, PartialEq, Eq)]
pub enum EntryValue {
    /// Unsigned 8-bit numbers.
    Byte(Vec<u8>),
    /// Characters, with any terminating zero as it stands in the data.
    Ascii(Vec<u8>),
    /// Unsigned 16-bit numbers.
    Short(Vec<u16>),
    /// Unsigned 32-bit numbers.
    Long(Vec<u32>),
    /// Unsigned fractions, numerator first.
    Rational(Vec<(u32, u32)>),
    /// Signed 8-bit numbers.
    SByte(Vec<i8>),
    /// Bytes without interpretation.
    Undefined(Vec<u8>),
    /// Signed 16-bit numbers.
    SShort(Vec<i16>),
    /// Signed 32-bit numbers.
    SLong(Vec<i32>),
    /// Signed fractions, numerator first.
    SRational(Vec<(i32, i32)>),
    /// Single-precision numbers, each as its 32 bits.
    Float(Vec<u32>),
    /// Double-precision numbers, each as its 64 bits.
    Double(Vec<u64>),
}

/// The mathematical content of an [`EntryValue`].
pub enum ValueModel {
    Byte(Seq<u8>),
    Ascii(Seq<u8>),
    Short(Seq<u16>),
    Long(Seq<u32>),
    Rational(Seq<(u32, u32)>),
    SByte(Seq<i8>),
    Undefined(Seq<u8>),
    SShort(Seq<i16>),
    SLong(Seq<i32>),
    SRational(Seq<(i32, i32)>),
    Float(Seq<u32>),
    Double(Seq<u64>),
}

impl View for EntryValue {
    type V = ValueModel;

    open spec fn view(&self) -> ValueModel {
        match self {
            EntryValue::Byte(v) => ValueModel::Byte(v@),
            EntryValue::Ascii(v) => ValueModel::Ascii(v@),
            EntryValue::Short(v) => ValueModel::Short(v@),
            EntryValue::Long(v) => ValueModel::Long(v@),
            EntryValue::Rational(v) => ValueModel::Rational(v@),
            EntryValue::SByte(v) => ValueModel::SByte(v@),
            EntryValue::Undefined(v) => ValueModel::Undefined(v@),
            EntryValue::SShort(v) => ValueModel::SShort(v@),
            EntryValue::SLong(v) => ValueModel::SLong(v@),
            EntryValue::SRational(v) => ValueModel::SRational(v@),
            EntryValue::Float(v) => ValueModel::Float(v@),
            EntryValue::Double(v) => ValueModel::Double(v@),
        }
    }
}

/// The `n` bytes from `at` on, each read as a signed number.
pub open spec fn spec_i8s(s: Seq<u8>, at: int, n: int) -> Seq<i8> {
    Seq::new(n as nat, |i: int| spec_i8_of(s[at + i]) as i8)
}

/// The `n` 16-bit numbers from `at` on.
pub open spec fn spec_u16s(s: Seq<u8>, at: int, n: int, e: Endian) -> Seq<u16> {
    Seq::new(n as nat, |i: int| spec_u16_at(s, at + 2 * i, e) as u16)
}

/// The `n` signed 16-bit numbers from `at` on.
pub open spec fn spec_i16s(s: Seq<u8>, at: int, n: int, e: Endian) -> Seq<i16> {
    Seq::new(n as nat, |i: int| spec_i16_of(spec_u16_at(s, at + 2 * i, e) as u16) as i16)
}

/// The `n` 32-bit numbers from `at` on.
pub open spec fn spec_u32s(s: Seq<u8>, at: int, n: int, e: Endian) -> Seq<u32> {
    Seq::new(n as nat, |i: int| spec_u32_at(s, at + 4 * i, e) as u32)
}

/// The `n` signed 32-bit numbers from `at` on.
pub open spec fn spec_i32s(s: Seq<u8>, at: int, n: int, e: Endian) -> Seq<i32> {
    Seq::new(n as nat, |i: int| spec_i32_of(spec_u32_at(s, at + 4 * i, e) as u32) as i32)
}

/// The `n` 64-bit numbers from `at` on.
pub open spec fn spec_u64s(s: Seq<u8>, at: int, n: int, e: Endian) -> Seq<u64> {
    Seq::new(n as nat, |i: int| spec_u64_at(s, at + 8 * i, e) as u64)
}

/// The fraction whose eight bytes start at `at`: numerator, then
/// denominator, each a 32-bit number in the byte order `e`.
pub open spec fn spec_rational_at(s: Seq<u8>, at: int, e: Endian) -> (u32, u32) {
    (spec_u32_at(s, at, e) as u32, spec_u32_at(s, at + 4, e) as u32)
}

/// The signed fraction whose eight bytes start at `at`.
pub open spec fn spec_srational_at(s: Seq<u8>, at: int, e: Endian) -> (i32, i32) {
    (
        spec_i32_of(spec_u32_at(s, at, e) as u32) as i32,
        spec_i32_of(spec_u32_at(s, at + 4, e) as u32) as i32,
    )
}

/// The `n` fractions from `at` on.
pub open spec fn spec_rationals(s: Seq<u8>, at: int, n: int, e: Endian) -> Seq<(u32, u32)> {
    Seq::new(n as nat, |i: int| spec_rational_at(s, at + 8 * i, e))
}

/// The `n` signed fractions from `at` on.
pub open spec fn spec_srationals(s: Seq<u8>, at: int, n: int, e: Endian) -> Seq<(i32, i32)> {
    Seq::new(n as nat, |i: int| spec_srational_at(s, at + 8 * i, e))
}

/// The `n` components of type `t` that start at `at`.
pub open spec fn spec_decode(s: Seq<u8>, at: int, t: DataType, n: int, e: Endian) -> ValueModel {
    match t {
        DataType::Byte => ValueModel::Byte(s.subrange(at, at + n)),
        DataType::Ascii => ValueModel::Ascii(s.subrange(at, at + n)),
        DataType::Short => ValueModel::Short(spec_u16s(s, at, n, e)),
        DataType::Long => ValueModel::Long(spec_u32s(s, at, n, e)),
        DataType::Rational => ValueModel::Rational(spec_rationals(s, at, n, e)),
        DataType::SByte => ValueModel::SByte(spec_i8s(s, at, n)),
        DataType::Undefined => ValueModel::Undefined(s.subrange(at, at + n)),
        DataType::SShort => ValueModel::SShort(spec_i16s(s, at, n, e)),
        DataType::SLong => ValueModel::SLong(spec_i32s(s, at, n, e)),
        DataType::SRational => ValueModel::SRational(spec_srationals(s, at, n, e)),
        DataType::Float => ValueModel::Float(spec_u32s(s, at, n, e)),
        DataType::Double => ValueModel::Double(spec_u64s(s, at, n, e)),
    }
}

/// Where the value of `entry` stands: in the record itself when it takes at
/// most four bytes, and else at the offset that the record gives.
pub open spec fn spec_value_at(entry: IfdEntry, t: DataType) -> int {
    if t.spec_total(entry.count as int) <= 4 {
        entry.field_at as int
    } else {
        entry.value_offset as int
    }
}

/// The value of `entry` in the TIFF data `s`. A type code that is not
/// defined is `UnsupportedValueType`; a value that does not lie inside the
/// data is `CorruptData`.
pub open spec fn spec_resolve(s: Seq<u8>, e: Endian, entry: IfdEntry) -> Result<
    ValueModel,
    Error,
> {
    match DataType::spec_from_code(entry.data_type) {
        None => Err(Error::UnsupportedValueType),
        Some(t) => {
            let at = spec_value_at(entry, t);
            if at + t.spec_total(entry.count as int) > s.len() {
                Err(Error::CorruptData)
            } else {
                Ok(spec_decode(s, at, t, entry.count as int, e))
            }
        },
    }
}

fn read_bytes(data: &[u8], at: usize, n: usize) -> (v: Vec<u8>)
    requires
        at + n <= data.len(),
    ensures
        v@ == data@.subrange(at as int, at + n),
{
    slice_to_vec(slice_subrange(data, at, at + n))
}

fn read_i8s(data: &[u8], at: usize, n: usize) -> (v: Vec<i8>)
    requires
        at + n <= data@.len(),
    ensures
        v@ == spec_i8s(data@, at as int, n as int),
{
    let mut v: Vec<i8> = Vec::new();
    let mut i: usize = 0;
    while i < n
        invariant
            i <= n,
            at + n <= data.len(),
            v@ == spec_i8s(data@, at as int, i as int),
        decreases n - i,
    {
        v.push(i8_of(data[at + i]));
        i += 1;
        assert(v@ =~= spec_i8s(data@, at as int, i as int));
    }
    v
}

fn read_u16s(data: &[u8], at: usize, n: usize, e: Endian) -> (v: Vec<u16>)
    requires
        at + 2 * n <= data@.len(),
    ensures
        v@ == spec_u16s(data@, at as int, n as int, e),
{
    let mut v: Vec<u16> = Vec::new();
    let mut i: usize = 0;
    while i < n
        invariant
            i <= n,
            at + 2 * n <= data.len(),
            v@ == spec_u16s(data@, at as int, i as int, e),
        decreases n - i,
    {
        v.push(read_u16(data, at + 2 * i, e).unwrap());
        i += 1;
        assert(v@ =~= spec_u16s(data@, at as int, i as int, e));
    }
    v
}

fn read_i16s(data: &[u8], at: usize, n: usize, e: Endian) -> (v: Vec<i16>)
    requires
        at + 2 * n <= data@.len(),
    ensures
        v@ == spec_i16s(data@, at as int, n as int, e),
{
    let mut v: Vec<i16> = Vec::new();
    let mut i: usize = 0;
    while i < n
        invariant
            i <= n,
            at + 2 * n <= data.len(),
            v@ == spec_i16s(data@, at as int, i as int, e),
        decreases n - i,
    {
        v.push(i16_of(read_u16(data, at + 2 * i, e).unwrap()));
        i += 1;
        assert(v@ =~= spec_i16s(data@, at as int, i as int, e));
    }
    v
}

fn read_u32s(data: &[u8], at: usize, n: usize, e: Endian) -> (v: Vec<u32>)
    requires
        at + 4 * n <= data@.len(),
    ensures
        v@ == spec_u32s(data@, at as int, n as int, e),
{
    let mut v: Vec<u32> = Vec::new();
    let mut i: usize = 0;
    while i < n
        invariant
            i <= n,
            at + 4 * n <= data.len(),
            v@ == spec_u32s(data@, at as int, i as int, e),
        decreases n - i,
    {
        v.push(read_u32(data, at + 4 * i, e).unwrap());
        i += 1;
        assert(v@ =~= spec_u32s(data@, at as int, i as int, e));
    }
    v
}

fn read_i32s(data: &[u8], at: usize, n: usize, e: Endian) -> (v: Vec<i32>)
    requires
        at + 4 * n <= data@.len(),
    ensures
        v@ == spec_i32s(data@, at as int, n as int, e),
{
    let mut v: Vec<i32> = Vec::new();
    let mut i: usize = 0;
    while i < n
        invariant
            i <= n,
            at + 4 * n <= data.len(),
            v@ == spec_i32s(data@, at as int, i as int, e),
        decreases n - i,
    {
        v.push(i32_of(read_u32(data, at + 4 * i, e).unwrap()));
        i += 1;
        assert(v@ =~= spec_i32s(data@, at as int, i as int, e));
    }
    v
}

fn read_u64s(data: &[u8], at: usize, n: usize, e: Endian) -> (v: Vec<u64>)
    requires
        at + 8 * n <= data@.len(),
    ensures
        v@ == spec_u64s(data@, at as int, n as int, e),
{
    let mut v: Vec<u64> = Vec::new();
    let mut i: usize = 0;
    while i < n
        invariant
            i <= n,
            at + 8 * n <= data.len(),
            v@ == spec_u64s(data@, at as int, i as int, e),
        decreases n - i,
    {
        v.push(read_u64(data, at + 8 * i, e).unwrap());
        i += 1;
        assert(v@ =~= spec_u64s(data@, at as int, i as int, e));
    }
    v
}

/// Reads the fraction whose eight bytes start at `at`, if they are there.
pub fn read_rational(data: &[u8], at: usize, e: Endian) -> (r: Option<(u32, u32)>)
    ensures
        r.is_some() <==> at + 8 <= data@.len(),
        r matches Some(q) ==> q == spec_rational_at(data@, at as int, e),
{
    if data.len() < 8 || at > data.len() - 8 {
        return None;
    }
    let num = read_u32(data, at, e).unwrap();
    let den = read_u32(data, at + 4, e).unwrap();
    Some((num, den))
}

/// Appends the eight bytes of the fraction `num / den` to `out`.
pub fn put_rational(out: &mut Vec<u8>, num: u32, den: u32, e: Endian)
    ensures
        final(out)@ == old(out)@ + (spec_u32_bytes(num, e) + spec_u32_bytes(den, e)),
{
    let ghost before = out@;
    put_u32(out, num, e);
    put_u32(out, den, e);
    assert(out@ =~= before + (spec_u32_bytes(num, e) + spec_u32_bytes(den, e)));
}

fn read_rationals(data: &[u8], at: usize, n: usize, e: Endian) -> (v: Vec<(u32, u32)>)
    requires
        at + 8 * n <= data@.len(),
    ensures
        v@ == spec_rationals(data@, at as int, n as int, e),
{
    let mut v: Vec<(u32, u32)> = Vec::new();
    let mut i: usize = 0;
    while i < n
        invariant
            i <= n,
            at + 8 * n <= data.len(),
            v@ == spec_rationals(data@, at as int, i as int, e),
        decreases n - i,
    {
        v.push(read_rational(data, at + 8 * i, e).unwrap());
        i += 1;
        assert(v@ =~= spec_rationals(data@, at as int, i as int, e));
    }
    v
}

fn read_srationals(data: &[u8], at: usize, n: usize, e: Endian) -> (v: Vec<(i32, i32)>)
    requires
        at + 8 * n <= data@.len(),
    ensures
        v@ == spec_srationals(data@, at as int, n as int, e),
{
    let mut v: Vec<(i32, i32)> = Vec::new();
    let mut i: usize = 0;
    while i < n
        invariant
            i <= n,
            at + 8 * n <= data.len(),
            v@ == spec_srationals(data@, at as int, i as int, e),
        decreases n - i,
    {
        let q = read_rational(data, at + 8 * i, e).unwrap();
        v.push((i32_of(q.0), i32_of(q.1)));
        i += 1;
        assert(v@ =~= spec_srationals(data@, at as int, i as int, e));
    }
    v
}

/// Decodes the value of `entry` from the TIFF data `data`.
pub fn resolve(data: &[u8], e: Endian, entry: &IfdEntry) -> (r: Result<EntryValue, Error>)
    ensures
        match r {
            Ok(v) => spec_resolve(data@, e, *entry) == Ok::<ValueModel, Error>(v@),
            Err(err) => spec_resolve(data@, e, *entry) == Err::<ValueModel, Error>(err),
        },
{
    let t = match DataType::from_code(entry.data_type) {
        None => {
            return Err(Error::UnsupportedValueType);
        },
        Some(t) => t,
    };
    let total: u64 = t.total(entry.count);
    let at: usize = if total <= 4 {
        entry.field_at
    } else {
        if entry.value_offset as u64 > data.len() as u64 {
            return Err(Error::CorruptData);
        }
        entry.value_offset as usize
    };
    if at > data.len() || total > (data.len() - at) as u64 {
        return Err(Error::CorruptData);
    }
    let n: usize = entry.count as usize;
    Ok(
        match t {
            DataType::Byte => EntryValue::Byte(read_bytes(data, at, n)),
            DataType::Ascii => EntryValue::Ascii(read_bytes(data, at, n)),
            DataType::Short => EntryValue::Short(read_u16s(data, at, n, e)),
            DataType::Long => EntryValue::Long(read_u32s(data, at, n, e)),
            DataType::Rational => EntryValue::Rational(read_rationals(data, at, n, e)),
            DataType::SByte => EntryValue::SByte(read_i8s(data, at, n)),
            DataType::Undefined => EntryValue::Undefined(read_bytes(data, at, n)),
            DataType::SShort => EntryValue::SShort(read_i16s(data, at, n, e)),
            DataType::SLong => EntryValue::SLong(read_i32s(data, at, n, e)),
            DataType::SRational => EntryValue::SRational(read_srationals(data, at, n, e)),
            DataType::Float => EntryValue::Float(read_u32s(data, at, n, e)),
            DataType::Double => EntryValue::Double(read_u64s(data, at, n, e)),
        },
    )
}

/// A fraction that is written and read back in the same byte order is the
/// fraction that was written; this holds in either byte order.
pub proof fn lemma_rational_round_trip(num: u32, den: u32, e: Endian)
    ensures
        (spec_u32_bytes(num, e) + spec_u32_bytes(den, e)).len() == 8,
        spec_rational_at(spec_u32_bytes(num, e) + spec_u32_bytes(den, e), 0, e) == (num, den),
{
    let a = spec_u32_bytes(num, e);
    let b = spec_u32_bytes(den, e);
    lemma_u32_round_trip(num, e);
    lemma_u32_round_trip(den, e);
    assert((a + b).subrange(0, 4) =~= a.subrange(0, 4));
    assert((a + b).subrange(4, 8) =~= b.subrange(0, 4));
    lemma_u32_same_bytes(a + b, 0, a, 0, e);
    lemma_u32_same_bytes(a + b, 4, b, 0, e);
}

/// Wherever the eight bytes of a fraction stand in the data, a `RATIONAL`
/// entry of one component that points there resolves to that fraction.
pub proof fn lemma_resolve_rational(
    s: Seq<u8>,
    at: u32,
    tag: u16,
    field_at: usize,
    num: u32,
    den: u32,
    e: Endian,
)
    requires
        at + 8 <= s.len(),
        s.subrange(at as int, at + 8) == spec_u32_bytes(num, e) + spec_u32_bytes(den, e),
    ensures
        spec_resolve(
            s,
            e,
            IfdEntry { tag, data_type: 5, count: 1, value_offset: at, field_at },
        ) == Ok::<ValueModel, Error>(ValueModel::Rational(seq![(num, den)])),
{
    let bytes = spec_u32_bytes(num, e) + spec_u32_bytes(den, e);
    lemma_rational_round_trip(num, den, e);
    assert(s.subrange(at as int, at + 4) =~= bytes.subrange(0, 4));
    assert(s.subrange(at + 4, at + 8) =~= bytes.subrange(4, 8));
    lemma_u32_same_bytes(s, at as int, bytes, 0, e);
    lemma_u32_same_bytes(s, at + 4, bytes, 4, e);
    assert(spec_rational_at(s, at as int, e) == (num, den));
    assert(spec_rationals(s, at as int, 1, e) =~= seq![(num, den)]);
}

} // verus!
