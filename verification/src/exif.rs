//! The decoded metadata of one file: each tag with its value.
//!
//! An [`Exif`] is built once, from a walk that is run to its end. Where a
//! tag occurs more than once in a directory kind, the first occurrence
//! counts. An entry whose value cannot be decoded is left out; it does not
//! spoil the others.

use vstd::prelude::*;
use vstd::slice::slice_subrange;
use crate::bytes::Endian;
use crate::error::Error;
use crate::ifd::{spec_start, spec_walk, ExifIter, IfdOrigin, ParsedExifEntry};
use crate::tiff::{resolve, spec_resolve, spec_tiff_header, EntryValue, ValueModel};

verus! {

/// One decoded entry.
#[derive(Debug, PartialEq, Eq)]
pub struct ExifField {
    /// The directory that the entry was found in.
    pub origin: IfdOrigin,
    /// The tag.
    pub tag: u16,
    /// The decoded value.
    pub value: EntryValue,
}

/// The mathematical content of an [`ExifField`].
pub struct FieldModel {
    pub origin: IfdOrigin,
    pub tag: u16,
    pub value: ValueModel,
}

impl View for ExifField {
    type V = FieldModel;

    open spec fn view(&self) -> FieldModel {
        FieldModel { origin: self.origin, tag: self.tag, value: self.value@ }
    }
}

/// The contents of each of `fields`.
pub open spec fn spec_fields(fields: Seq<ExifField>) -> Seq<FieldModel> {
    Seq::new(fields.len(), |i: int| fields[i]@)
}

/// The value of the first of `fields` that stands under `tag` in the
/// directory kind `origin`.
pub open spec fn spec_lookup(fields: Seq<FieldModel>, origin: IfdOrigin, tag: u16) -> Option<
    ValueModel,
>
    decreases fields.len(),
{
    if fields.len() == 0 {
        None
    } else {
        match spec_lookup(fields.drop_last(), origin, tag) {
            Some(v) => Some(v),
            None => if fields.last().origin == origin && fields.last().tag == tag {
                Some(fields.last().value)
            } else {
                None
            },
        }
    }
}

/// The decoded value of the first of `entries` that stands under `tag` in
/// the directory kind `origin` and whose value can be decoded.
pub open spec fn spec_first_value(
    s: Seq<u8>,
    e: Endian,
    entries: Seq<ParsedExifEntry>,
    origin: IfdOrigin,
    tag: u16,
) -> Option<ValueModel>
    decreases entries.len(),
{
    if entries.len() == 0 {
        None
    } else {
        match spec_first_value(s, e, entries.drop_last(), origin, tag) {
            Some(v) => Some(v),
            None => {
                let x = entries.last();
                if x.origin == origin && x.entry.tag == tag {
                    match spec_resolve(s, e, x.entry) {
                        Ok(v) => Some(v),
                        Err(_) => None,
                    }
                } else {
                    None
                }
            },
        }
    }
}

/// The fields that `entries` come to, taken in order: an entry adds a
/// field when its value can be decoded and no field stands under its tag
/// and directory kind yet.
pub open spec fn spec_assemble(s: Seq<u8>, e: Endian, entries: Seq<ParsedExifEntry>) -> Seq<
    FieldModel,
>
    decreases entries.len(),
{
    if entries.len() == 0 {
        Seq::empty()
    } else {
        let acc = spec_assemble(s, e, entries.drop_last());
        let x = entries.last();
        match spec_resolve(s, e, x.entry) {
            Err(_) => acc,
            Ok(v) => if spec_lookup(acc, x.origin, x.entry.tag).is_some() {
                acc
            } else {
                acc.push(FieldModel { origin: x.origin, tag: x.entry.tag, value: v })
            },
        }
    }
}

/// The metadata of TIFF data `s`: the fields of all the entries that a
/// walk over it hands out. A header that cannot be read, and a failure
/// that ends the walk, are failures of the whole.
pub open spec fn spec_parse_exif(s: Seq<u8>) -> Result<Seq<FieldModel>, Error> {
    match spec_tiff_header(s) {
        Err(e) => Err(e),
        Ok(h) => {
            let (entries, end) = spec_walk(s, h.endian, spec_start(h));
            match end {
                Some(e) => Err(e),
                None => Ok(spec_assemble(s, h.endian, entries)),
            }
        },
    }
}

/// The number of characters of the text in `s`: the bytes before the first
/// zero byte, or all of them.
pub open spec fn spec_text_len(s: Seq<u8>) -> nat
    decreases s.len(),
{
    if s.len() == 0 || s[0] == 0 {
        0
    } else {
        1 + spec_text_len(s.skip(1))
    }
}

impl EntryValue {
    /// The number that the value stands for, when it is a single unsigned
    /// number of 8, 16 or 32 bits.
    pub open spec fn spec_as_u32(v: ValueModel) -> Option<u32> {
        match v {
            ValueModel::Byte(s) => if s.len() == 1 {
                Some(s[0] as u32)
            } else {
                None
            },
            ValueModel::Short(s) => if s.len() == 1 {
                Some(s[0] as u32)
            } else {
                None
            },
            ValueModel::Long(s) => if s.len() == 1 {
                Some(s[0])
            } else {
                None
            },
            _ => None,
        }
    }

    /// The characters of the value, when it is text: the bytes before the
    /// first zero byte.
    pub open spec fn spec_as_text(v: ValueModel) -> Option<Seq<u8>> {
        match v {
            ValueModel::Ascii(s) => Some(s.take(spec_text_len(s) as int)),
            _ => None,
        }
    }

    /// Returns the number that the value stands for, when it is a single
    /// unsigned number of 8, 16 or 32 bits.
    pub fn as_u32(&self) -> (r: Option<u32>)
        ensures
            r == Self::spec_as_u32(self@),
    {
        match self {
            EntryValue::Byte(v) => if v.len() == 1 {
                Some(v[0] as u32)
            } else {
                None
            },
            EntryValue::Short(v) => if v.len() == 1 {
                Some(v[0] as u32)
            } else {
                None
            },
            EntryValue::Long(v) => if v.len() == 1 {
                Some(v[0])
            } else {
                None
            },
            _ => None,
        }
    }

    /// Borrows the characters of the value, when it is text.
    pub fn as_text(&self) -> (r: Option<&[u8]>)
        ensures
            match r {
                Some(t) => Self::spec_as_text(self@) == Some(t@),
                None => Self::spec_as_text(self@).is_none(),
            },
    {
        match self {
            EntryValue::Ascii(v) => {
                let bytes = v.as_slice();
                let mut n: usize = 0;
                assert(bytes@.skip(0) =~= bytes@);
                while n < bytes.len() && bytes[n] != 0
                    invariant
                        n <= bytes.len(),
                        spec_text_len(bytes@) == n + spec_text_len(bytes@.skip(n as int)),
                    decreases bytes.len() - n,
                {
                    proof {
                        assert(bytes@.skip(n as int).skip(1) =~= bytes@.skip(n + 1));
                    }
                    n += 1;
                }
                let t = slice_subrange(bytes, 0, n);
                assert(t@ =~= v@.take(spec_text_len(v@) as int));
                Some(t)
            },
            _ => None,
        }
    }
}

/// The decoded metadata of one file.
#[derive(Debug, PartialEq, Eq)]
pub struct Exif {
    fields: Vec<ExifField>,
}

impl View for Exif {
    type V = Seq<FieldModel>;

    closed spec fn view(&self) -> Seq<FieldModel> {
        spec_fields(self.fields@)
    }
}

/// Finds the first of `fields` under `tag` in the directory kind `origin`.
fn position(fields: &Vec<ExifField>, origin: IfdOrigin, tag: u16) -> (r: Option<usize>)
    ensures
        match r {
            Some(i) => i < fields@.len() && spec_lookup(spec_fields(fields@), origin, tag) == Some(
                fields@[i as int]@.value,
            ),
            None => spec_lookup(spec_fields(fields@), origin, tag).is_none(),
        },
{
    let ghost all = spec_fields(fields@);
    let mut i: usize = 0;
    while i < fields.len()
        invariant
            i <= fields.len(),
            all == spec_fields(fields@),
            spec_lookup(all.take(i as int), origin, tag).is_none(),
        decreases fields.len() - i,
    {
        if fields[i].origin == origin && fields[i].tag == tag {
            proof {
                assert(all.take(i + 1).drop_last() =~= all.take(i as int));
                lemma_lookup_prefix(all, (i + 1) as int, origin, tag);
            }
            return Some(i);
        }
        proof {
            assert(all.take(i + 1).drop_last() =~= all.take(i as int));
        }
        i += 1;
    }
    assert(all.take(i as int) =~= all);
    None
}

/// What is found in the first `n` fields is found in all of them.
pub proof fn lemma_lookup_prefix(fields: Seq<FieldModel>, n: int, origin: IfdOrigin, tag: u16)
    requires
        0 <= n <= fields.len(),
        spec_lookup(fields.take(n), origin, tag).is_some(),
    ensures
        spec_lookup(fields, origin, tag) == spec_lookup(fields.take(n), origin, tag),
    decreases fields.len(),
{
    if n < fields.len() {
        assert(fields.drop_last().take(n) =~= fields.take(n));
        lemma_lookup_prefix(fields.drop_last(), n, origin, tag);
    } else {
        assert(fields.take(n) =~= fields);
    }
}

impl Exif {
    /// Builds the metadata from the entries that a walk handed out,
    /// decoding each value from the data of that walk.
    pub fn assemble(data: &[u8], e: Endian, entries: &Vec<ParsedExifEntry>) -> (r: Exif)
        ensures
            r@ == spec_assemble(data@, e, entries@),
    {
        let mut fields: Vec<ExifField> = Vec::new();
        let mut i: usize = 0;
        assert(entries@.take(0) =~= Seq::<ParsedExifEntry>::empty());
        while i < entries.len()
            invariant
                i <= entries.len(),
                spec_fields(fields@) == spec_assemble(data@, e, entries@.take(i as int)),
            decreases entries.len() - i,
        {
            let x = entries[i];
            proof {
                assert(entries@.take(i + 1).drop_last() =~= entries@.take(i as int));
                assert(entries@.take(i + 1).last() == x);
            }
            match resolve(data, e, &x.entry) {
                Err(_) => {},
                Ok(value) => {
                    if position(&fields, x.origin, x.entry.tag).is_none() {
                        let ghost before = spec_fields(fields@);
                        let f = ExifField { origin: x.origin, tag: x.entry.tag, value };
                        fields.push(f);
                        assert(spec_fields(fields@) =~= before.push(f@));
                    }
                },
            }
            i += 1;
        }
        assert(entries@.take(i as int) =~= entries@);
        Exif { fields }
    }

    /// Decodes all the metadata of TIFF data in one go.
    pub fn parse(data: Vec<u8>) -> (r: Result<Exif, Error>)
        ensures
            match r {
                Ok(x) => spec_parse_exif(data@) == Ok::<Seq<FieldModel>, Error>(x@),
                Err(e) => spec_parse_exif(data@) == Err::<Seq<FieldModel>, Error>(e),
            },
    {
        let mut iter = match ExifIter::new(data) {
            Err(e) => {
                return Err(e);
            },
            Ok(it) => it,
        };
        let (entries, end) = iter.collect();
        match end {
            Some(e) => Err(e),
            None => Ok(Exif::assemble(iter.data(), iter.endian(), &entries)),
        }
    }

    /// Returns the number of fields.
    pub fn len(&self) -> (n: usize)
        ensures
            n == self@.len(),
    {
        self.fields.len()
    }

    /// Borrows the value under `tag` in the directory kind `origin`.
    pub fn get(&self, origin: IfdOrigin, tag: u16) -> (r: Option<&EntryValue>)
        ensures
            match r {
                Some(v) => spec_lookup(self@, origin, tag) == Some(v@),
                None => spec_lookup(self@, origin, tag).is_none(),
            },
    {
        match position(&self.fields, origin, tag) {
            Some(i) => Some(&self.fields[i].value),
            None => None,
        }
    }

    /// Returns the number under `tag`, when the value is a single unsigned
    /// number.
    pub fn get_uint(&self, origin: IfdOrigin, tag: u16) -> (r: Option<u32>)
        ensures
            r == match spec_lookup(self@, origin, tag) {
                Some(v) => EntryValue::spec_as_u32(v),
                None => None,
            },
    {
        match self.get(origin, tag) {
            Some(v) => v.as_u32(),
            None => None,
        }
    }

    /// Borrows the characters under `tag`, when the value is text.
    pub fn get_text(&self, origin: IfdOrigin, tag: u16) -> (r: Option<&[u8]>)
        ensures
            match r {
                Some(t) => spec_lookup(self@, origin, tag) matches Some(v)
                    && EntryValue::spec_as_text(v) == Some(t@),
                None => match spec_lookup(self@, origin, tag) {
                    Some(v) => EntryValue::spec_as_text(v).is_none(),
                    None => true,
                },
            },
    {
        match self.get(origin, tag) {
            Some(v) => v.as_text(),
            None => None,
        }
    }
}

/// The first occurrence wins: under every tag and directory kind, the
/// assembled fields hold the value of the first entry, in the order of the
/// walk, that stands there and can be decoded; and nothing where there is
/// no such entry.
pub proof fn lemma_first_occurrence_wins(
    s: Seq<u8>,
    e: Endian,
    entries: Seq<ParsedExifEntry>,
    origin: IfdOrigin,
    tag: u16,
)
    ensures
        spec_lookup(spec_assemble(s, e, entries), origin, tag) == spec_first_value(
            s,
            e,
            entries,
            origin,
            tag,
        ),
    decreases entries.len(),
{
    if entries.len() > 0 {
        let head = entries.drop_last();
        let x = entries.last();
        let acc = spec_assemble(s, e, head);
        lemma_first_occurrence_wins(s, e, head, origin, tag);
        lemma_first_occurrence_wins(s, e, head, x.origin, x.entry.tag);
        match spec_resolve(s, e, x.entry) {
            Err(_) => {},
            Ok(v) => {
                if spec_lookup(acc, x.origin, x.entry.tag).is_none() {
                    let f = FieldModel { origin: x.origin, tag: x.entry.tag, value: v };
                    assert(acc.push(f).drop_last() =~= acc);
                }
            },
        }
    }
}

/// No tag stands twice in one directory kind: two different fields of an
/// assembled result differ in their tag or in their directory kind.
pub proof fn lemma_keys_are_unique(s: Seq<u8>, e: Endian, entries: Seq<ParsedExifEntry>)
    ensures
        ({
            let fields = spec_assemble(s, e, entries);
            forall|i: int, j: int|
                0 <= i < j < fields.len() ==> !((#[trigger] fields[i]).origin == (
                #[trigger] fields[j]).origin && fields[i].tag == fields[j].tag)
        }),
    decreases entries.len(),
{
    if entries.len() > 0 {
        let head = entries.drop_last();
        let x = entries.last();
        let acc = spec_assemble(s, e, head);
        lemma_keys_are_unique(s, e, head);
        match spec_resolve(s, e, x.entry) {
            Err(_) => {},
            Ok(v) => {
                if spec_lookup(acc, x.origin, x.entry.tag).is_none() {
                    let f = FieldModel { origin: x.origin, tag: x.entry.tag, value: v };
                    let fields = acc.push(f);
                    assert forall|i: int, j: int| 0 <= i < j < fields.len() implies !((
                    #[trigger] fields[i]).origin == (#[trigger] fields[j]).origin && fields[i].tag
                        == fields[j].tag) by {
                        if j == acc.len() {
                            lemma_lookup_finds(acc, i, x.origin, x.entry.tag);
                        }
                    }
                }
            },
        }
    }
}

/// A field that stands under a tag and directory kind is found by a lookup
/// for them.
pub proof fn lemma_lookup_finds(fields: Seq<FieldModel>, i: int, origin: IfdOrigin, tag: u16)
    requires
        0 <= i < fields.len(),
    ensures
        fields[i].origin == origin && fields[i].tag == tag ==> spec_lookup(
            fields,
            origin,
            tag,
        ).is_some(),
    decreases fields.len(),
{
    if i < fields.len() - 1 {
        lemma_lookup_finds(fields.drop_last(), i, origin, tag);
    }
}

} // verus!
