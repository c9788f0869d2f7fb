use exif_meta::bytes::Endian;
use exif_meta::error::Error;
use exif_meta::exif::Exif;
use exif_meta::ifd::{
    ifd_count, pointer_of, ExifIter, IfdOrigin, ParsedExifEntry, Pending, EXIF_IFD_POINTER,
    GPS_IFD_POINTER, INTEROP_IFD_POINTER,
};
use exif_meta::tiff::{EntryValue, IfdEntry};

/// One record: tag, type code, count and the bytes of the value.
struct Rec(u16, u16, u32, Vec<u8>);

fn u16b(v: u16, big: bool) -> [u8; 2] {
    if big { v.to_be_bytes() } else { v.to_le_bytes() }
}

fn u32b(v: u32, big: bool) -> [u8; 4] {
    if big { v.to_be_bytes() } else { v.to_le_bytes() }
}

fn header(first: u32, big: bool) -> Vec<u8> {
    let mut out = if big { vec![0x4D, 0x4D, 0x00, 0x2A] } else { vec![0x49, 0x49, 0x2A, 0x00] };
    out.extend_from_slice(&u32b(first, big));
    out
}

/// Appends a directory to `out`; values of more than four bytes follow it.
fn push_ifd(out: &mut Vec<u8>, recs: &[Rec], next: u32, big: bool) {
    let base = out.len();
    let mut extra_at = base + 2 + 12 * recs.len() + 4;
    let mut extra = Vec::new();
    out.extend_from_slice(&u16b(recs.len() as u16, big));
    for r in recs {
        out.extend_from_slice(&u16b(r.0, big));
        out.extend_from_slice(&u16b(r.1, big));
        out.extend_from_slice(&u32b(r.2, big));
        if r.3.len() <= 4 {
            let mut field = r.3.clone();
            field.resize(4, 0);
            out.extend_from_slice(&field);
        } else {
            out.extend_from_slice(&u32b(extra_at as u32, big));
            extra.extend_from_slice(&r.3);
            extra_at += r.3.len();
        }
    }
    out.extend_from_slice(&u32b(next, big));
    out.extend_from_slice(&extra);
}

fn ifd_len(recs: &[Rec]) -> usize {
    2 + 12 * recs.len() + 4 + recs.iter().map(|r| if r.3.len() > 4 { r.3.len() } else { 0 }).sum::<usize>()
}

fn tags(entries: &[ParsedExifEntry]) -> Vec<(IfdOrigin, u16)> {
    entries.iter().map(|p| (p.origin, p.entry.tag)).collect()
}

/// Primary directory with a pointer to an EXIF directory in the middle, a
/// GPS pointer at the end, and a second directory in the chain.
fn nested(big: bool) -> Vec<u8> {
    let primary = |exif_at: u32, gps_at: u32| {
        vec![
            Rec(0x010F, 2, 6, b"Canon\0".to_vec()),
            Rec(EXIF_IFD_POINTER, 4, 1, u32b(exif_at, big).to_vec()),
            Rec(0x0112, 3, 1, u16b(1, big).to_vec()),
            Rec(GPS_IFD_POINTER, 4, 1, u32b(gps_at, big).to_vec()),
        ]
    };
    let exif = |interop_at: u32| {
        vec![
            Rec(0x829A, 5, 1, [u32b(1, big), u32b(250, big)].concat()),
            Rec(INTEROP_IFD_POINTER, 4, 1, u32b(interop_at, big).to_vec()),
            Rec(0x8827, 3, 1, u16b(400, big).to_vec()),
        ]
    };
    let interop = vec![Rec(0x0001, 2, 4, b"R98\0".to_vec())];
    let gps = vec![Rec(0x0001, 2, 2, b"N\0".to_vec())];
    let second = vec![Rec(0x0103, 3, 1, u16b(6, big).to_vec())];
    let exif_at = 8 + ifd_len(&primary(0, 0));
    let interop_at = exif_at + ifd_len(&exif(0));
    let gps_at = interop_at + ifd_len(&interop);
    let second_at = gps_at + ifd_len(&gps);
    let mut out = header(8, big);
    push_ifd(&mut out, &primary(exif_at as u32, gps_at as u32), second_at as u32, big);
    push_ifd(&mut out, &exif(interop_at as u32), 0, big);
    push_ifd(&mut out, &interop, 0, big);
    push_ifd(&mut out, &gps, 0, big);
    push_ifd(&mut out, &second, 0, big);
    out
}

#[test]
fn pointer_entries_are_single_longs_under_three_tags() {
    let e = |tag, data_type, count| IfdEntry { tag, data_type, count, value_offset: 77, field_at: 0 };
    assert_eq!(
        pointer_of(&e(EXIF_IFD_POINTER, 4, 1)),
        Some(Pending { offset: 77, origin: IfdOrigin::Exif })
    );
    assert_eq!(
        pointer_of(&e(GPS_IFD_POINTER, 4, 1)),
        Some(Pending { offset: 77, origin: IfdOrigin::Gps })
    );
    assert_eq!(
        pointer_of(&e(INTEROP_IFD_POINTER, 4, 1)),
        Some(Pending { offset: 77, origin: IfdOrigin::Interop })
    );
    assert_eq!(pointer_of(&e(EXIF_IFD_POINTER, 3, 1)), None);
    assert_eq!(pointer_of(&e(EXIF_IFD_POINTER, 4, 2)), None);
    assert_eq!(pointer_of(&e(0x0112, 4, 1)), None);
    assert_eq!((EXIF_IFD_POINTER, GPS_IFD_POINTER, INTEROP_IFD_POINTER), (0x8769, 0x8825, 0xA005));
}

#[test]
fn directory_must_lie_inside_the_data() {
    let mut data = header(8, false);
    push_ifd(&mut data, &[Rec(0x0112, 3, 1, vec![1, 0])], 0, false);
    assert_eq!(ifd_count(&data, Endian::Little, 8), Ok(1));
    assert_eq!(ifd_count(&data[..data.len() - 1], Endian::Little, 8), Err(Error::CorruptData));
    assert_eq!(ifd_count(&data, Endian::Little, data.len() as u32 - 1), Err(Error::CorruptData));
    assert_eq!(ifd_count(&data, Endian::Little, u32::MAX), Err(Error::CorruptData));
    assert_eq!(ifd_count(&[], Endian::Little, 0), Err(Error::CorruptData));
}

#[test]
fn walk_is_depth_first_and_marks_origins() {
    for big in [false, true] {
        let mut iter = ExifIter::new(nested(big)).unwrap();
        assert_eq!(iter.endian(), if big { Endian::Big } else { Endian::Little });
        let (entries, end) = iter.collect();
        assert_eq!(end, None);
        assert_eq!(
            tags(&entries),
            vec![
                (IfdOrigin::Primary, 0x010F),
                (IfdOrigin::Primary, EXIF_IFD_POINTER),
                (IfdOrigin::Exif, 0x829A),
                (IfdOrigin::Exif, INTEROP_IFD_POINTER),
                (IfdOrigin::Interop, 0x0001),
                (IfdOrigin::Exif, 0x8827),
                (IfdOrigin::Primary, 0x0112),
                (IfdOrigin::Primary, GPS_IFD_POINTER),
                (IfdOrigin::Gps, 0x0001),
                (IfdOrigin::Primary, 0x0103),
            ]
        );
        assert_eq!(iter.value(&entries[0]), Ok(EntryValue::Ascii(b"Canon\0".to_vec())));
        assert_eq!(iter.value(&entries[2]), Ok(EntryValue::Rational(vec![(1, 250)])));
        assert_eq!(iter.value(&entries[4]), Ok(EntryValue::Ascii(b"R98\0".to_vec())));
        assert_eq!(iter.value(&entries[8]), Ok(EntryValue::Ascii(b"N\0".to_vec())));
        assert_eq!(iter.next(), None);
    }
}

#[test]
fn next_hands_out_one_entry_at_a_time() {
    let mut iter = ExifIter::new(nested(true)).unwrap();
    let first = iter.next().unwrap().unwrap();
    assert_eq!((first.origin, first.entry.tag, first.entry.count), (IfdOrigin::Primary, 0x010F, 6));
    assert_eq!(first.entry.data_type, 2);
    assert_eq!(first.entry.field_at, 18);
    let second = iter.next().unwrap().unwrap();
    assert_eq!(second.entry.tag, EXIF_IFD_POINTER);
    let third = iter.next().unwrap().unwrap();
    assert_eq!((third.origin, third.entry.tag), (IfdOrigin::Exif, 0x829A));
    assert_eq!(iter.data(), &nested(true)[..]);
}

#[test]
fn header_without_a_directory_gives_an_empty_walk() {
    let mut iter = ExifIter::new(header(0, false)).unwrap();
    assert_eq!(iter.next(), None);
    assert_eq!(iter.collect(), (vec![], None));
    assert!(ExifIter::new(vec![1, 2, 3]).is_err());
    assert_eq!(ExifIter::new(vec![0; 8]).err(), Some(Error::CorruptData));
}

#[test]
fn cycle_in_the_chain_ends_with_corrupt_data() {
    // directory at 8 whose next-directory offset is 8 again
    let mut data = header(8, false);
    push_ifd(&mut data, &[Rec(0x0112, 3, 1, vec![1, 0])], 8, false);
    let mut iter = ExifIter::new(data).unwrap();
    let mut steps = 0;
    let mut seen = Vec::new();
    loop {
        steps += 1;
        assert!(steps < 10, "the walk does not end");
        match iter.next() {
            None => break,
            Some(r) => seen.push(r.map(|p| p.entry.tag)),
        }
    }
    assert_eq!(seen, vec![Ok(0x0112), Err(Error::CorruptData)]);
    assert_eq!(iter.next(), None);
}

#[test]
fn cycle_of_two_directories_ends_with_corrupt_data() {
    let a = vec![Rec(0x0100, 3, 1, vec![1, 0])];
    let b = vec![Rec(0x0101, 3, 1, vec![2, 0])];
    let b_at = 8 + ifd_len(&a);
    let mut data = header(8, false);
    push_ifd(&mut data, &a, b_at as u32, false);
    push_ifd(&mut data, &b, 8, false);
    let mut iter = ExifIter::new(data).unwrap();
    let (entries, end) = iter.collect();
    assert_eq!(tags(&entries), vec![(IfdOrigin::Primary, 0x0100), (IfdOrigin::Primary, 0x0101)]);
    assert_eq!(end, Some(Error::CorruptData));
}

#[test]
fn pointer_to_a_visited_directory_ends_with_corrupt_data() {
    // the EXIF pointer of the primary directory points at the primary directory
    let recs = vec![
        Rec(0x010F, 2, 2, b"A\0".to_vec()),
        Rec(EXIF_IFD_POINTER, 4, 1, 8u32.to_be_bytes().to_vec()),
        Rec(0x0112, 3, 1, vec![0, 1]),
    ];
    let mut data = header(8, true);
    push_ifd(&mut data, &recs, 0, true);
    let mut iter = ExifIter::new(data).unwrap();
    assert_eq!(iter.next().unwrap().unwrap().entry.tag, 0x010F);
    assert_eq!(iter.next().unwrap().unwrap().entry.tag, EXIF_IFD_POINTER);
    assert_eq!(iter.next(), Some(Err(Error::CorruptData)));
    assert_eq!(iter.next(), None);
    assert_eq!(iter.next(), None);
}

#[test]
fn directory_outside_the_data_ends_with_corrupt_data() {
    let mut data = header(8, false);
    push_ifd(&mut data, &[Rec(0x0112, 3, 1, vec![1, 0])], 5000, false);
    let mut iter = ExifIter::new(data).unwrap();
    let (entries, end) = iter.collect();
    assert_eq!(entries.len(), 1);
    assert_eq!(end, Some(Error::CorruptData));
    let mut iter = ExifIter::new(header(8, false)).unwrap();
    assert_eq!(iter.collect(), (vec![], Some(Error::CorruptData)));
}

#[test]
fn value_that_cannot_be_decoded_concerns_its_entry_alone() {
    let recs = vec![
        Rec(0x0100, 3, 1, vec![1, 0]),
        Rec(0x0101, 77, 1, vec![0; 4]),
        Rec(0x0102, 5, 1, vec![0xF0, 0xFF, 0xFF, 0x7F]),
        Rec(0x0103, 3, 1, vec![4, 0]),
    ];
    let mut data = header(8, false);
    push_ifd(&mut data, &recs, 0, false);
    let mut iter = ExifIter::new(data.clone()).unwrap();
    let (entries, end) = iter.collect();
    assert_eq!(end, None);
    assert_eq!(entries.len(), 4);
    assert_eq!(iter.value(&entries[0]), Ok(EntryValue::Short(vec![1])));
    assert_eq!(iter.value(&entries[1]), Err(Error::UnsupportedValueType));
    assert_eq!(iter.value(&entries[2]), Err(Error::CorruptData));
    assert_eq!(iter.value(&entries[3]), Ok(EntryValue::Short(vec![4])));
    let exif = Exif::parse(data).unwrap();
    assert_eq!(exif.len(), 2);
    assert_eq!(exif.get_uint(IfdOrigin::Primary, 0x0100), Some(1));
    assert_eq!(exif.get(IfdOrigin::Primary, 0x0101), None);
    assert_eq!(exif.get(IfdOrigin::Primary, 0x0102), None);
    assert_eq!(exif.get_uint(IfdOrigin::Primary, 0x0103), Some(4));
}

#[test]
fn first_occurrence_of_a_tag_wins() {
    let recs = vec![
        Rec(0x0112, 99, 1, vec![9, 0]),
        Rec(0x0112, 3, 1, vec![1, 0]),
        Rec(0x0112, 3, 1, vec![2, 0]),
        Rec(0x010F, 2, 4, b"one\0".to_vec()),
        Rec(0x010F, 2, 4, b"two\0".to_vec()),
    ];
    let second = vec![Rec(0x0112, 3, 1, vec![3, 0])];
    let mut data = header(8, false);
    push_ifd(&mut data, &recs, (8 + ifd_len(&recs)) as u32, false);
    push_ifd(&mut data, &second, 0, false);
    let exif = Exif::parse(data).unwrap();
    assert_eq!(exif.len(), 2);
    // the first occurrence that can be decoded counts
    assert_eq!(exif.get(IfdOrigin::Primary, 0x0112), Some(&EntryValue::Short(vec![1])));
    assert_eq!(exif.get_text(IfdOrigin::Primary, 0x010F), Some(&b"one"[..]));
}

#[test]
fn same_tag_in_different_directories_is_kept_apart() {
    let exif = Exif::parse(nested(false)).unwrap();
    assert_eq!(exif.len(), 10);
    assert_eq!(exif.get_text(IfdOrigin::Interop, 0x0001), Some(&b"R98"[..]));
    assert_eq!(exif.get_text(IfdOrigin::Gps, 0x0001), Some(&b"N"[..]));
    assert_eq!(exif.get(IfdOrigin::Primary, 0x0001), None);
    assert_eq!(exif.get(IfdOrigin::MakerNote, 0x0001), None);
    assert_eq!(exif.get_text(IfdOrigin::Primary, 0x010F), Some(&b"Canon"[..]));
    assert_eq!(exif.get_uint(IfdOrigin::Primary, 0x0112), Some(1));
    assert_eq!(exif.get_uint(IfdOrigin::Exif, 0x8827), Some(400));
    assert_eq!(exif.get_uint(IfdOrigin::Primary, 0x010F), None);
    assert_eq!(exif.get_text(IfdOrigin::Primary, 0x0112), None);
    assert_eq!(
        exif.get(IfdOrigin::Exif, 0x829A),
        Some(&EntryValue::Rational(vec![(1, 250)]))
    );
}

#[test]
fn failed_walk_is_a_failure_of_the_whole() {
    let mut data = header(8, false);
    push_ifd(&mut data, &[Rec(0x0112, 3, 1, vec![1, 0])], 8, false);
    assert_eq!(Exif::parse(data), Err(Error::CorruptData));
    assert_eq!(Exif::parse(vec![]), Err(Error::UnexpectedEof));
}

#[test]
fn numbers_and_text_of_values() {
    assert_eq!(EntryValue::Byte(vec![7]).as_u32(), Some(7));
    assert_eq!(EntryValue::Short(vec![700]).as_u32(), Some(700));
    assert_eq!(EntryValue::Long(vec![70_000]).as_u32(), Some(70_000));
    assert_eq!(EntryValue::Long(vec![1, 2]).as_u32(), None);
    assert_eq!(EntryValue::Short(vec![]).as_u32(), None);
    assert_eq!(EntryValue::SLong(vec![1]).as_u32(), None);
    assert_eq!(EntryValue::Ascii(b"Canon EOS R6\0".to_vec()).as_text(), Some(&b"Canon EOS R6"[..]));
    assert_eq!(EntryValue::Ascii(b"ab\0cd\0".to_vec()).as_text(), Some(&b"ab"[..]));
    assert_eq!(EntryValue::Ascii(b"abc".to_vec()).as_text(), Some(&b"abc"[..]));
    assert_eq!(EntryValue::Ascii(vec![]).as_text(), Some(&b""[..]));
    assert_eq!(EntryValue::Undefined(b"abc".to_vec()).as_text(), None);
}

#[test]
fn sub_directory_before_its_parent_is_read_from_the_data_at_hand() {
    // the GPS directory lies at offset 8, before the primary directory that
    // points back at it; the whole data is in memory, so going back is no
    // matter of the source
    let gps = vec![Rec(0x0001, 2, 2, b"S\0".to_vec())];
    let primary_at = 8 + ifd_len(&gps);
    let primary = vec![
        Rec(GPS_IFD_POINTER, 4, 1, 8u32.to_le_bytes().to_vec()),
        Rec(0x0112, 3, 1, vec![3, 0]),
    ];
    let mut data = header(primary_at as u32, false);
    push_ifd(&mut data, &gps, 0, false);
    push_ifd(&mut data, &primary, 0, false);
    let mut iter = ExifIter::new(data.clone()).unwrap();
    let (entries, end) = iter.collect();
    assert_eq!(end, None);
    assert_eq!(
        tags(&entries),
        vec![
            (IfdOrigin::Primary, GPS_IFD_POINTER),
            (IfdOrigin::Gps, 0x0001),
            (IfdOrigin::Primary, 0x0112),
        ]
    );
    let exif = Exif::parse(data).unwrap();
    assert_eq!(exif.get_text(IfdOrigin::Gps, 0x0001), Some(&b"S"[..]));
}

#[test]
fn walk_of_many_directories_ends() {
    // a chain of 200 directories, the last of which points at the first
    let rec = || vec![Rec(0x0100, 3, 1, vec![1, 0])];
    let each = ifd_len(&rec());
    let mut data = header(8, false);
    for k in 0..200usize {
        let next = if k == 199 { 8 } else { 8 + (k + 1) * each };
        push_ifd(&mut data, &rec(), next as u32, false);
    }
    let mut iter = ExifIter::new(data.clone()).unwrap();
    let (entries, end) = iter.collect();
    assert_eq!(entries.len(), 200);
    assert_eq!(end, Some(Error::CorruptData));
    assert!(entries.len() <= 65536 * data.len());
}
