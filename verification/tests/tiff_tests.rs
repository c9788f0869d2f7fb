use exif_meta::bytes::Endian;
use exif_meta::error::Error;
use exif_meta::tiff::{
    parse_entry, parse_tiff_header, put_rational, read_rational, resolve, DataType, EntryValue,
    IfdEntry, TiffHeader,
};

fn entry(data_type: u16, count: u32, value_offset: u32, field_at: usize) -> IfdEntry {
    IfdEntry { tag: 0x0100, data_type, count, value_offset, field_at }
}

#[test]
fn header_in_either_byte_order() {
    assert_eq!(
        parse_tiff_header(&[0x49, 0x49, 0x2A, 0x00, 0x08, 0x00, 0x00, 0x00]),
        Ok(TiffHeader { endian: Endian::Little, first_ifd: 8 })
    );
    assert_eq!(
        parse_tiff_header(&[0x4D, 0x4D, 0x00, 0x2A, 0x00, 0x00, 0x01, 0x02, 0xFF]),
        Ok(TiffHeader { endian: Endian::Big, first_ifd: 0x0102 })
    );
}

#[test]
fn header_that_is_short_or_wrong() {
    assert_eq!(parse_tiff_header(&[0x49, 0x49, 0x2A, 0x00, 0x08, 0x00, 0x00]), Err(Error::UnexpectedEof));
    assert_eq!(parse_tiff_header(&[]), Err(Error::UnexpectedEof));
    assert_eq!(
        parse_tiff_header(&[0x49, 0x49, 0x00, 0x2A, 0x08, 0x00, 0x00, 0x00]),
        Err(Error::CorruptData)
    );
    assert_eq!(
        parse_tiff_header(&[0x4D, 0x49, 0x00, 0x2A, 0x08, 0x00, 0x00, 0x00]),
        Err(Error::CorruptData)
    );
}

#[test]
fn data_type_codes_and_sizes() {
    let sizes = [1usize, 1, 2, 4, 8, 1, 1, 2, 4, 8, 4, 8];
    for code in 1u16..=12 {
        let t = DataType::from_code(code).unwrap();
        assert_eq!(t.size(), sizes[code as usize - 1]);
        assert_eq!(t.total(3), 3 * sizes[code as usize - 1] as u64);
    }
    assert_eq!(DataType::from_code(0), None);
    assert_eq!(DataType::from_code(13), None);
    assert_eq!(DataType::from_code(5), Some(DataType::Rational));
    assert_eq!(DataType::from_code(10), Some(DataType::SRational));
    assert_eq!(DataType::Double.total(u32::MAX), 8 * (u32::MAX as u64));
}

#[test]
fn record_is_read_in_the_byte_order() {
    let le = [0x12, 0x01, 0x03, 0x00, 0x01, 0x00, 0x00, 0x00, 0x06, 0x00, 0x00, 0x00];
    assert_eq!(
        parse_entry(&le, 0, Endian::Little),
        Some(IfdEntry { tag: 0x0112, data_type: 3, count: 1, value_offset: 6, field_at: 8 })
    );
    let mut be = vec![0xEE];
    be.extend_from_slice(&[0x01, 0x12, 0x00, 0x03, 0x00, 0x00, 0x00, 0x01, 0x00, 0x06, 0x00, 0x00]);
    assert_eq!(
        parse_entry(&be, 1, Endian::Big),
        Some(IfdEntry { tag: 0x0112, data_type: 3, count: 1, value_offset: 0x0006_0000, field_at: 9 })
    );
    assert_eq!(parse_entry(&be, 2, Endian::Big), None);
    assert_eq!(parse_entry(&[], 0, Endian::Big), None);
}

#[test]
fn rational_follows_the_declared_byte_order() {
    let raw = [0x00, 0x00, 0x00, 0x2B, 0x00, 0x00, 0x00, 0x01];
    assert_eq!(read_rational(&raw, 0, Endian::Big), Some((43, 1)));
    assert_eq!(read_rational(&raw, 0, Endian::Little), Some((0x2B00_0000, 0x0100_0000)));
    assert_eq!(read_rational(&raw, 1, Endian::Big), None);
    assert_eq!(
        resolve(&raw, Endian::Big, &entry(5, 1, 0, 100)),
        Ok(EntryValue::Rational(vec![(43, 1)]))
    );
    assert_eq!(
        resolve(&raw, Endian::Little, &entry(5, 1, 0, 100)),
        Ok(EntryValue::Rational(vec![(0x2B00_0000, 0x0100_0000)]))
    );
}

#[test]
fn rational_written_and_read_back() {
    for e in [Endian::Big, Endian::Little] {
        for (num, den) in [(2446u32, 100u32), (0, 1), (u32::MAX, 1), (1, u32::MAX), (9997, 1_000_000)] {
            let mut data = vec![0xAB; 3];
            put_rational(&mut data, num, den, e);
            assert_eq!(data.len(), 11);
            assert_eq!(read_rational(&data, 3, e), Some((num, den)));
            assert_eq!(
                resolve(&data, e, &entry(5, 1, 3, 0)),
                Ok(EntryValue::Rational(vec![(num, den)]))
            );
        }
    }
    let mut data = Vec::new();
    put_rational(&mut data, 0x0102_0304, 0x0506_0708, Endian::Little);
    assert_eq!(data, vec![4, 3, 2, 1, 8, 7, 6, 5]);
}

#[test]
fn short_values_stand_in_the_record() {
    // a record at offset 0; its value field is at 8
    let data = [0, 0, 0, 0, 0, 0, 0, 0, 0x01, 0x02, 0xFE, 0xFF];
    assert_eq!(
        resolve(&data, Endian::Little, &entry(3, 2, 0xFFFF_0201, 8)),
        Ok(EntryValue::Short(vec![0x0201, 0xFFFE]))
    );
    assert_eq!(
        resolve(&data, Endian::Big, &entry(3, 1, 0, 8)),
        Ok(EntryValue::Short(vec![0x0102]))
    );
    assert_eq!(
        resolve(&data, Endian::Big, &entry(4, 1, 0, 8)),
        Ok(EntryValue::Long(vec![0x0102_FEFF]))
    );
    assert_eq!(
        resolve(&data, Endian::Big, &entry(1, 4, 0, 8)),
        Ok(EntryValue::Byte(vec![1, 2, 0xFE, 0xFF]))
    );
    assert_eq!(
        resolve(&data, Endian::Big, &entry(6, 3, 0, 8)),
        Ok(EntryValue::SByte(vec![1, 2, -2]))
    );
    assert_eq!(
        resolve(&data, Endian::Big, &entry(8, 2, 0, 8)),
        Ok(EntryValue::SShort(vec![0x0102, -257]))
    );
    assert_eq!(
        resolve(&data, Endian::Little, &entry(9, 1, 0, 8)),
        Ok(EntryValue::SLong(vec![-130_559]))
    );
    assert_eq!(
        resolve(&data, Endian::Big, &entry(11, 1, 0, 8)),
        Ok(EntryValue::Float(vec![0x0102_FEFF]))
    );
    assert_eq!(resolve(&data, Endian::Big, &entry(7, 0, 0, 8)), Ok(EntryValue::Undefined(vec![])));
}

#[test]
fn long_values_stand_at_their_offset() {
    let mut data = vec![0u8; 16];
    data.extend_from_slice(b"Canon EOS R6\0");
    data.extend_from_slice(&[0xFF, 0xFF, 0xFF, 0xFE, 0x00, 0x00, 0x00, 0x02]);
    data.extend_from_slice(&[0x3F, 0xF0, 0, 0, 0, 0, 0, 0]);
    assert_eq!(
        resolve(&data, Endian::Big, &entry(2, 13, 16, 8)),
        Ok(EntryValue::Ascii(b"Canon EOS R6\0".to_vec()))
    );
    assert_eq!(
        resolve(&data, Endian::Big, &entry(10, 1, 29, 8)),
        Ok(EntryValue::SRational(vec![(-2, 2)]))
    );
    assert_eq!(
        resolve(&data, Endian::Big, &entry(12, 1, 37, 8)),
        Ok(EntryValue::Double(vec![0x3FF0_0000_0000_0000]))
    );
    assert_eq!(
        resolve(&data, Endian::Big, &entry(7, 5, 16, 8)),
        Ok(EntryValue::Undefined(b"Canon".to_vec()))
    );
    assert_eq!(
        resolve(&data, Endian::Big, &entry(4, 2, 29, 8)),
        Ok(EntryValue::Long(vec![0xFFFF_FFFE, 2]))
    );
}

#[test]
fn value_outside_the_data_is_corrupt() {
    let data = vec![0u8; 20];
    assert_eq!(resolve(&data, Endian::Big, &entry(5, 1, 13, 8)), Err(Error::CorruptData));
    assert_eq!(resolve(&data, Endian::Big, &entry(5, 1, 12, 8)), Ok(EntryValue::Rational(vec![(0, 0)])));
    assert_eq!(resolve(&data, Endian::Big, &entry(1, u32::MAX, 0, 8)), Err(Error::CorruptData));
    assert_eq!(resolve(&data, Endian::Big, &entry(12, u32::MAX, 0, 8)), Err(Error::CorruptData));
    assert_eq!(resolve(&data, Endian::Big, &entry(5, 1, u32::MAX, 8)), Err(Error::CorruptData));
    assert_eq!(resolve(&data, Endian::Big, &entry(3, 2, 0, 17)), Err(Error::CorruptData));
    assert_eq!(resolve(&data, Endian::Big, &entry(3, 0, 0, 21)), Err(Error::CorruptData));
}

#[test]
fn undefined_type_code_is_unsupported() {
    let data = vec![0u8; 20];
    assert_eq!(resolve(&data, Endian::Big, &entry(0, 1, 0, 8)), Err(Error::UnsupportedValueType));
    assert_eq!(resolve(&data, Endian::Big, &entry(13, 1, 0, 8)), Err(Error::UnsupportedValueType));
    assert_eq!(resolve(&data, Endian::Big, &entry(0xFFFF, 0, 0, 99)), Err(Error::UnsupportedValueType));
}
