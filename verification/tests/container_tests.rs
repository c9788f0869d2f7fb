use exif_meta::ebml::{
    element_uint, read_vint, Ebml, Vint, EBML_HEADER, INFO, SEGMENT, TRACKS, TRACK_ENTRY, VIDEO,
};
use exif_meta::error::Error;
use exif_meta::heif::{
    exif_item_id, exif_payload, find_heif_exif, find_item, iloc_layout, Extent, IlocLayout,
};
use exif_meta::jpeg::{find_exif, Jpeg, APP0, EOI, FILL, SOI, SOS};
use exif_meta::raf::{find_jpeg, find_raf_exif, has_raf_magic, HEADER_LEN, JPEG_OFFSET_AT};
use exif_meta::span::Span;
use exif_meta::walker::{children, find, first_node, Node, TreeWalker};

fn boxed(kind: &[u8; 4], body: &[u8]) -> Vec<u8> {
    let mut out = Vec::new();
    out.extend_from_slice(&((body.len() as u32 + 8).to_be_bytes()));
    out.extend_from_slice(kind);
    out.extend_from_slice(body);
    out
}

fn segment(marker: u8, payload: &[u8]) -> Vec<u8> {
    let mut out = vec![0xFF, marker];
    out.extend_from_slice(&((payload.len() as u16 + 2).to_be_bytes()));
    out.extend_from_slice(payload);
    out
}

fn tiff() -> Vec<u8> {
    vec![0x49, 0x49, 0x2A, 0x00, 0x08, 0x00, 0x00, 0x00, 0x00, 0x00, 0x00, 0x00, 0x00, 0x00]
}

fn exif_payload_bytes() -> Vec<u8> {
    let mut p = b"Exif\0\0".to_vec();
    p.extend_from_slice(&tiff());
    p
}

fn jpeg_with_exif() -> Vec<u8> {
    let mut out = vec![0xFF, SOI];
    out.extend_from_slice(&segment(APP0, b"JFIF\0\x01\x02"));
    out.extend_from_slice(&segment(0xE1, b"http://ns.adobe.com/xap/1.0/\0<x/>"));
    out.extend_from_slice(&segment(0xE1, &exif_payload_bytes()));
    out.extend_from_slice(&segment(0xDB, &[0; 65]));
    out.extend_from_slice(&segment(SOS, &[0; 10]));
    out.extend_from_slice(&[0x12, 0x34, 0xFF, 0x00, 0x56, 0xFF, EOI]);
    out
}

// ---------------------------------------------------------------- JPEG

#[test]
fn jpeg_exif_is_the_first_app_segment_with_the_signature() {
    let file = jpeg_with_exif();
    let span = find_exif(&file).unwrap();
    assert_eq!(span.slice(&file), Some(&tiff()[..]));
    // the application segment need not be APP1
    let mut other = vec![0xFF, SOI];
    other.extend_from_slice(&segment(0xE5, &exif_payload_bytes()));
    other.extend_from_slice(&segment(0xE1, b"Exif\0\0second"));
    assert_eq!(find_exif(&other).unwrap().slice(&other), Some(&tiff()[..]));
}

#[test]
fn jpeg_without_exif_is_exif_not_found() {
    assert_eq!(find_exif(&[0xFF, SOI, 0xFF, EOI]), Err(Error::ExifNotFound));
    assert_eq!(find_exif(&[0xFF, SOI]), Err(Error::ExifNotFound));
    let mut file = vec![0xFF, SOI];
    file.extend_from_slice(&segment(APP0, b"JFIF\0"));
    file.extend_from_slice(&segment(SOS, &[0; 4]));
    file.extend_from_slice(&segment(0xE1, &exif_payload_bytes()));
    assert_eq!(find_exif(&file), Err(Error::ExifNotFound));
    // the signature in a segment that is no application segment does not count
    let mut file = vec![0xFF, SOI];
    file.extend_from_slice(&segment(0xFE, &exif_payload_bytes()));
    file.extend_from_slice(&[0xFF, EOI]);
    assert_eq!(find_exif(&file), Err(Error::ExifNotFound));
}

#[test]
fn jpeg_fill_bytes_and_lone_markers_are_stepped_over() {
    let mut file = vec![0xFF, SOI, 0xFF, 0xFF, 0xFF, 0xD0, 0xFF, 0x01, 0xFF];
    file.extend_from_slice(&segment(0xE1, &exif_payload_bytes()));
    let span = find_exif(&file).unwrap();
    assert_eq!(span.slice(&file), Some(&tiff()[..]));
    let nodes = children(&Jpeg, &file, Span::whole(file.len())).unwrap();
    let tags: Vec<u64> = nodes.iter().map(|n| n.tag).collect();
    assert_eq!(tags, vec![SOI as u64, FILL as u64, FILL as u64, 0xD0, 0x01, FILL as u64, 0xE1]);
    assert_eq!(nodes[1].whole, Span { start: 2, end: 3 });
    assert_eq!(nodes[3].whole, Span { start: 4, end: 6 });
}

#[test]
fn jpeg_that_does_not_start_with_soi_is_not_recognised() {
    assert_eq!(find_exif(&[]), Err(Error::UnrecognizedFormat));
    assert_eq!(find_exif(&[0xFF]), Err(Error::UnrecognizedFormat));
    assert_eq!(find_exif(&[0xFF, 0xD9, 0xFF, 0xD8]), Err(Error::UnrecognizedFormat));
}

#[test]
fn jpeg_segment_errors() {
    // length beyond the end of the stream
    assert_eq!(find_exif(&[0xFF, SOI, 0xFF, 0xE1, 0x00, 0x09, 1, 2, 3]), Err(Error::CorruptData));
    // length below two
    assert_eq!(find_exif(&[0xFF, SOI, 0xFF, 0xE1, 0x00, 0x01, 1, 2, 3]), Err(Error::CorruptData));
    // no FF where a segment has to start
    assert_eq!(find_exif(&[0xFF, SOI, 0x00, 0xE1, 0x00, 0x02]), Err(Error::CorruptData));
    // marker or length cut short
    assert_eq!(find_exif(&[0xFF, SOI, 0xFF]), Err(Error::UnexpectedEof));
    assert_eq!(find_exif(&[0xFF, SOI, 0xFF, 0xE1, 0x00]), Err(Error::UnexpectedEof));
    // an application segment too short for the signature is stepped over
    let mut file = vec![0xFF, SOI];
    file.extend_from_slice(&segment(0xE1, b"Exif"));
    file.extend_from_slice(&[0xFF, EOI]);
    assert_eq!(find_exif(&file), Err(Error::ExifNotFound));
}

#[test]
fn jpeg_scan_data_is_one_node_to_the_end() {
    let file = jpeg_with_exif();
    let nodes = children(&Jpeg, &file, Span::whole(file.len())).unwrap();
    let last = nodes[nodes.len() - 1];
    assert_eq!(last.tag, SOS as u64);
    assert_eq!(last.whole.end, file.len());
    assert_eq!(last.body.start, last.whole.start + 4);
    assert_eq!(nodes.len(), 6);
    let total: usize = nodes.iter().map(|n| n.whole.len()).sum();
    assert_eq!(total, file.len());
}

// ---------------------------------------------------------------- EBML

fn element(id: &[u8], body: &[u8]) -> Vec<u8> {
    let mut out = id.to_vec();
    assert!(body.len() < 127);
    out.push(0x80 | body.len() as u8);
    out.extend_from_slice(body);
    out
}

#[test]
fn vint_length_shows_in_the_first_byte() {
    let whole = |b: &[u8]| read_vint(b, Span::whole(b.len()));
    assert_eq!(whole(&[0x81]), Ok(Vint { len: 1, raw: 0x81, value: 1 }));
    assert_eq!(whole(&[0xFF]), Ok(Vint { len: 1, raw: 0xFF, value: 0x7F }));
    assert_eq!(whole(&[0x40, 0x02, 0xAA]), Ok(Vint { len: 2, raw: 0x4002, value: 2 }));
    assert_eq!(
        whole(&[0x1A, 0x45, 0xDF, 0xA3]),
        Ok(Vint { len: 4, raw: 0x1A45_DFA3, value: 0x0A45_DFA3 })
    );
    assert_eq!(
        whole(&[0x01, 0x00, 0x00, 0x00, 0x00, 0x00, 0x01, 0x00]),
        Ok(Vint { len: 8, raw: 0x0100_0000_0000_0100, value: 0x100 })
    );
    assert_eq!(
        whole(&[0x01, 0xFF, 0xFF, 0xFF, 0xFF, 0xFF, 0xFF, 0xFF]),
        Ok(Vint { len: 8, raw: 0x01FF_FFFF_FFFF_FFFF, value: 0x00FF_FFFF_FFFF_FFFF })
    );
}

#[test]
fn vint_errors() {
    let whole = |b: &[u8]| read_vint(b, Span::whole(b.len()));
    assert_eq!(whole(&[]), Err(Error::UnexpectedEof));
    assert_eq!(whole(&[0x00, 0x80]), Err(Error::CorruptData));
    assert_eq!(whole(&[0x40]), Err(Error::UnexpectedEof));
    assert_eq!(whole(&[0x10, 1, 2]), Err(Error::UnexpectedEof));
    assert_eq!(read_vint(&[0x81], Span { start: 0, end: 2 }), Err(Error::CorruptData));
    assert_eq!(read_vint(&[0x40, 0x02], Span { start: 0, end: 1 }), Err(Error::UnexpectedEof));
}

#[test]
fn ebml_ids_are_what_they_are() {
    assert_eq!(
        (EBML_HEADER, SEGMENT, INFO, TRACKS, TRACK_ENTRY, VIDEO),
        (0x1A45_DFA3, 0x1853_8067, 0x1549_A966, 0x1654_AE6B, 0xAE, 0xE0)
    );
}

#[test]
fn ebml_elements_and_their_numbers() {
    let width = element(&[0xB0], &[0x01, 0xE0]);
    let height = element(&[0xBA], &[0x01, 0x0E]);
    let video = element(&[0xE0], &[width.clone(), height.clone()].concat());
    let entry = element(&[0xAE], &[element(&[0xD7], &[1]), video.clone()].concat());
    let tracks = element(&[0x16, 0x54, 0xAE, 0x6B], &entry);
    let info = element(&[0x15, 0x49, 0xA9, 0x66], &element(&[0x2A, 0xD7, 0xB1], &[0x0F, 0x42, 0x40]));
    let cluster = element(&[0x1F, 0x43, 0xB6, 0x75], &[0xFF; 20]);
    let segment = element(&[0x18, 0x53, 0x80, 0x67], &[info, tracks, cluster].concat());
    let mut file = element(&[0x1A, 0x45, 0xDF, 0xA3], &element(&[0x42, 0x82], b"webm"));
    file.extend_from_slice(&segment);

    let top = children(&Ebml, &file, Span::whole(file.len())).unwrap();
    assert_eq!(top.len(), 2);
    assert_eq!(top[0].tag, EBML_HEADER);
    assert_eq!(top[1].tag, SEGMENT);
    assert_eq!(top[1].whole.end, file.len());

    let mut walker = TreeWalker::start(&file, Span::whole(file.len())).unwrap();
    let (nodes, end) = walker.collect(&Ebml, &file);
    assert_eq!(end, None);
    let tags: Vec<u64> = nodes.iter().map(|n| n.tag).collect();
    assert_eq!(
        tags,
        vec![
            EBML_HEADER, SEGMENT, INFO, 0x2AD7B1, TRACKS, TRACK_ENTRY, 0xD7, VIDEO, 0xB0, 0xBA,
            0x1F43_B675
        ]
    );
    assert_eq!(element_uint(&file, nodes[3].body), Some(1_000_000));
    assert_eq!(element_uint(&file, nodes[8].body), Some(480));
    assert_eq!(element_uint(&file, nodes[9].body), Some(270));
    assert_eq!(element_uint(&file, nodes[10].body), None);
    assert_eq!(element_uint(&file, Span { start: 3, end: 3 }), Some(0));
    assert_eq!(element_uint(&file, Span { start: 0, end: file.len() + 1 }), None);
    let found = find(&Ebml, &file, top[1].body, TRACKS).unwrap().unwrap();
    assert_eq!(found.whole, nodes[4].whole);
}

#[test]
fn ebml_element_of_unknown_size_reaches_to_the_end() {
    let mut file = vec![0x18, 0x53, 0x80, 0x67, 0x01, 0xFF, 0xFF, 0xFF, 0xFF, 0xFF, 0xFF, 0xFF];
    file.extend_from_slice(&element(&[0xEC], &[0; 5]));
    let n = first_node(&Ebml, &file, Span::whole(file.len())).unwrap();
    assert_eq!(
        n,
        Node {
            tag: SEGMENT,
            whole: Span { start: 0, end: file.len() },
            body: Span { start: 12, end: file.len() }
        }
    );
    let one = [0xEC, 0xFF, 1, 2, 3];
    assert_eq!(first_node(&Ebml, &one, Span::whole(5)).unwrap().body, Span { start: 2, end: 5 });
}

#[test]
fn ebml_element_larger_than_its_row_is_corrupt() {
    let e = element(&[0xEC], &[1, 2, 3]);
    assert_eq!(first_node(&Ebml, &e, Span { start: 0, end: 4 }), Err(Error::CorruptData));
    assert_eq!(first_node(&Ebml, &e, Span { start: 0, end: 1 }), Err(Error::UnexpectedEof));
    assert_eq!(first_node(&Ebml, &[0x00, 0x81], Span::whole(2)), Err(Error::CorruptData));
    assert_eq!(children(&Ebml, &[0xEC, 0x80, 0xEC], Span::whole(3)), Err(Error::UnexpectedEof));
}

// ---------------------------------------------------------------- RAF

fn raf(jpeg: &[u8], offset: u32, length: u32) -> Vec<u8> {
    let mut out = b"FUJIFILMCCD-RAW 0201FF129502X-T3".to_vec();
    out.resize(JPEG_OFFSET_AT, 0);
    out.extend_from_slice(&offset.to_be_bytes());
    out.extend_from_slice(&length.to_be_bytes());
    assert_eq!(out.len(), HEADER_LEN);
    out.resize(offset as usize, 0xEE);
    out.extend_from_slice(jpeg);
    out
}

#[test]
fn raf_header_leads_to_the_embedded_jpeg() {
    let jpeg = jpeg_with_exif();
    let file = raf(&jpeg, 148, jpeg.len() as u32);
    assert!(has_raf_magic(&file));
    assert_eq!(find_jpeg(&file), Ok(Span { start: 148, end: 148 + jpeg.len() }));
    let span = find_raf_exif(&file).unwrap();
    assert_eq!(span.slice(&file), Some(&tiff()[..]));
    let inner = find_exif(&jpeg).unwrap();
    assert_eq!(span, Span { start: 148 + inner.start, end: 148 + inner.end });
}

#[test]
fn raf_errors() {
    let jpeg = jpeg_with_exif();
    let file = raf(&jpeg, 148, jpeg.len() as u32);
    assert!(!has_raf_magic(b"FUJIFILMCCD-RAX 0201"));
    assert_eq!(find_jpeg(b"FUJIFILMCCD-RAX"), Err(Error::UnrecognizedFormat));
    assert_eq!(find_jpeg(&[]), Err(Error::UnrecognizedFormat));
    assert_eq!(find_jpeg(&file[..HEADER_LEN - 1]), Err(Error::UnexpectedEof));
    assert_eq!(find_jpeg(&raf(&jpeg, 148, jpeg.len() as u32 + 1)), Err(Error::CorruptData));
    assert_eq!(find_jpeg(&raf(&[], 92, u32::MAX)), Err(Error::CorruptData));
    assert_eq!(find_raf_exif(&raf(&[0xFF, SOI, 0xFF, EOI], 100, 4)), Err(Error::ExifNotFound));
    assert_eq!(find_raf_exif(&raf(&[1, 2, 3, 4], 100, 4)), Err(Error::UnrecognizedFormat));
    assert_eq!(find_raf_exif(&raf(&[], 92, 0)), Err(Error::UnrecognizedFormat));
}

// ---------------------------------------------------------------- HEIF

fn infe(version: u8, id: u32, item_type: &[u8; 4]) -> Vec<u8> {
    let mut body = vec![version, 0, 0, 0];
    if version == 2 {
        body.extend_from_slice(&(id as u16).to_be_bytes());
    } else {
        body.extend_from_slice(&id.to_be_bytes());
    }
    body.extend_from_slice(&[0, 0]);
    body.extend_from_slice(item_type);
    body.push(0);
    boxed(b"infe", &body)
}

fn iinf(entries: &[Vec<u8>]) -> Vec<u8> {
    let mut body = vec![0, 0, 0, 0];
    body.extend_from_slice(&(entries.len() as u16).to_be_bytes());
    for e in entries {
        body.extend_from_slice(e);
    }
    boxed(b"iinf", &body)
}

/// An item location box of version 1 with 4-byte offsets and lengths and
/// no base offset; each item has one extent.
fn iloc(items: &[(u16, u32, u32)]) -> Vec<u8> {
    let mut body = vec![1, 0, 0, 0, 0x44, 0x00];
    body.extend_from_slice(&(items.len() as u16).to_be_bytes());
    for (id, offset, length) in items {
        body.extend_from_slice(&id.to_be_bytes());
        body.extend_from_slice(&[0, 0]); // construction method
        body.extend_from_slice(&[0, 0]); // data reference index
        body.extend_from_slice(&[0, 1]); // extent count
        body.extend_from_slice(&offset.to_be_bytes());
        body.extend_from_slice(&length.to_be_bytes());
    }
    boxed(b"iloc", &body)
}

fn heif(exif_item: &[u8]) -> (Vec<u8>, usize) {
    let make = |offset: u32| {
        let mut meta_body = vec![0, 0, 0, 0];
        meta_body.extend_from_slice(&boxed(b"hdlr", &[0; 12]));
        meta_body.extend_from_slice(&iinf(&[infe(2, 1, b"hvc1"), infe(2, 7, b"Exif")]));
        meta_body.extend_from_slice(&iloc(&[(1, 9999, 10), (7, offset, exif_item.len() as u32)]));
        let mut file = boxed(b"ftyp", b"heic\0\0\0\0mif1heic");
        file.extend_from_slice(&boxed(b"meta", &meta_body));
        file.extend_from_slice(&[0, 0, 0, 0, b'm', b'd', b'a', b't']);
        file
    };
    let offset = make(0).len();
    let mut file = make(offset as u32);
    // declare the size of mdat
    let mdat_at = offset - 8;
    file[mdat_at..mdat_at + 4].copy_from_slice(&(exif_item.len() as u32 + 8).to_be_bytes());
    file.extend_from_slice(exif_item);
    (file, offset)
}

fn exif_item() -> Vec<u8> {
    let mut item = vec![0, 0, 0, 6];
    item.extend_from_slice(b"Exif\0\0");
    item.extend_from_slice(&tiff());
    item
}

#[test]
fn heif_exif_item_is_found_through_iinf_and_iloc() {
    let (file, offset) = heif(&exif_item());
    let span = find_heif_exif(&file).unwrap();
    assert_eq!(span, Span { start: offset + 10, end: file.len() });
    assert_eq!(span.slice(&file), Some(&tiff()[..]));
}

#[test]
fn heif_item_information_entries() {
    let b = iinf(&[infe(2, 1, b"hvc1"), infe(3, 70_000, b"Exif"), infe(2, 5, b"Exif")]);
    let body = Span { start: 8, end: b.len() };
    assert_eq!(exif_item_id(&b, body), Ok(Some(70_000)));
    let b = iinf(&[infe(2, 1, b"hvc1")]);
    assert_eq!(exif_item_id(&b, Span { start: 8, end: b.len() }), Ok(None));
    // entries of a version without an item type are passed over
    let b = iinf(&[infe(1, 3, b"Exif"), infe(2, 4, b"Exif")]);
    assert_eq!(exif_item_id(&b, Span { start: 8, end: b.len() }), Ok(Some(4)));
    assert_eq!(exif_item_id(&b, Span { start: 8, end: 13 }), Err(Error::CorruptData));
    assert_eq!(exif_item_id(&b, Span { start: 8, end: b.len() + 1 }), Err(Error::CorruptData));
    assert_eq!(exif_item_id(&b, Span { start: 8, end: b.len() - 1 }), Err(Error::CorruptData));
    // version 1 of the box has a 32-bit count
    let mut v1 = vec![1, 0, 0, 0, 0, 0, 0, 1];
    v1.extend_from_slice(&infe(2, 9, b"Exif"));
    assert_eq!(exif_item_id(&v1, Span::whole(v1.len())), Ok(Some(9)));
}

#[test]
fn heif_item_location_layout() {
    let b = iloc(&[(7, 100, 20)]);
    let body = Span { start: 8, end: b.len() };
    let l = iloc_layout(&b, body).unwrap();
    assert_eq!(
        l,
        IlocLayout {
            version: 1,
            offset_size: 4,
            length_size: 4,
            base_offset_size: 0,
            index_size: 0,
            item_count: 1,
            items_at: 16
        }
    );
    assert_eq!(find_item(&b, l, body.end, 7), Ok(Some(Extent { offset: 100, length: 20 })));
    assert_eq!(find_item(&b, l, body.end, 8), Ok(None));
    assert_eq!(find_item(&b, l, body.end - 1, 7), Err(Error::CorruptData));
    assert_eq!(iloc_layout(&b, Span { start: 8, end: 15 }), Err(Error::CorruptData));
    let mut bad = b.clone();
    bad[8] = 3;
    assert_eq!(iloc_layout(&bad, body), Err(Error::CorruptData));
    let mut bad = b.clone();
    bad[12] = 0x34;
    assert_eq!(iloc_layout(&bad, body), Err(Error::CorruptData));
}

#[test]
fn heif_item_location_of_version_two_with_base_offsets() {
    // version 2: 32-bit ids and count; 8-byte base offset, 4-byte index,
    // 8-byte offset, 4-byte length
    let mut body = vec![2, 0, 0, 0, 0x84, 0x84];
    body.extend_from_slice(&2u32.to_be_bytes());
    for (id, method, base, extents) in [(5u32, 0u16, 1000u64, 2u16), (6, 0, 2000, 1)] {
        body.extend_from_slice(&id.to_be_bytes());
        body.extend_from_slice(&method.to_be_bytes());
        body.extend_from_slice(&[0, 0]);
        body.extend_from_slice(&base.to_be_bytes());
        body.extend_from_slice(&extents.to_be_bytes());
        for k in 0..extents {
            body.extend_from_slice(&[0, 0, 0, 0]);
            body.extend_from_slice(&(10u64 + k as u64).to_be_bytes());
            body.extend_from_slice(&(30u32 + k as u32).to_be_bytes());
        }
    }
    let span = Span::whole(body.len());
    let l = iloc_layout(&body, span).unwrap();
    assert_eq!((l.version, l.item_count, l.items_at), (2, 2, 10));
    assert_eq!((l.offset_size, l.length_size, l.base_offset_size, l.index_size), (8, 4, 8, 4));
    assert_eq!(find_item(&body, l, span.end, 5), Ok(Some(Extent { offset: 1010, length: 30 })));
    assert_eq!(find_item(&body, l, span.end, 6), Ok(Some(Extent { offset: 2010, length: 30 })));
    assert_eq!(find_item(&body, l, span.end, 7), Ok(None));
    // data that is not addressed by file offset is not found
    let mut other = body.clone();
    other[15] = 1;
    assert_eq!(find_item(&other, l, span.end, 5), Ok(None));
    assert_eq!(find_item(&other, l, span.end, 6), Ok(Some(Extent { offset: 2010, length: 30 })));
}

#[test]
fn heif_exif_payload_follows_its_offset_field() {
    let mut data = vec![0xEE; 5];
    data.extend_from_slice(&[0, 0, 0, 2, 9, 9, 1, 2, 3]);
    assert_eq!(
        exif_payload(&data, Extent { offset: 5, length: 9 }),
        Ok(Span { start: 11, end: 14 })
    );
    assert_eq!(exif_payload(&data, Extent { offset: 5, length: 6 }), Ok(Span { start: 11, end: 11 }));
    assert_eq!(exif_payload(&data, Extent { offset: 5, length: 5 }), Err(Error::CorruptData));
    assert_eq!(exif_payload(&data, Extent { offset: 5, length: 10 }), Err(Error::CorruptData));
    assert_eq!(exif_payload(&data, Extent { offset: 5, length: 3 }), Err(Error::CorruptData));
    assert_eq!(exif_payload(&data, Extent { offset: u64::MAX, length: 9 }), Err(Error::CorruptData));
    assert_eq!(exif_payload(&data, Extent { offset: 5, length: u64::MAX }), Err(Error::CorruptData));
}

#[test]
fn heif_without_the_boxes_is_exif_not_found() {
    let file = boxed(b"ftyp", b"heic\0\0\0\0");
    assert_eq!(find_heif_exif(&file), Err(Error::ExifNotFound));
    let mut no_iloc = file.clone();
    let mut meta = vec![0, 0, 0, 0];
    meta.extend_from_slice(&iinf(&[infe(2, 7, b"Exif")]));
    no_iloc.extend_from_slice(&boxed(b"meta", &meta));
    assert_eq!(find_heif_exif(&no_iloc), Err(Error::ExifNotFound));
    let mut no_item = file.clone();
    let mut meta = vec![0, 0, 0, 0];
    meta.extend_from_slice(&iinf(&[infe(2, 7, b"hvc1")]));
    meta.extend_from_slice(&iloc(&[(7, 0, 4)]));
    no_item.extend_from_slice(&boxed(b"meta", &meta));
    assert_eq!(find_heif_exif(&no_item), Err(Error::ExifNotFound));
    let mut short_meta = file.clone();
    short_meta.extend_from_slice(&boxed(b"meta", &[0, 0]));
    assert_eq!(find_heif_exif(&short_meta), Err(Error::CorruptData));
    let (mut cut, _) = heif(&exif_item());
    cut.truncate(cut.len() - 1);
    assert_eq!(find_heif_exif(&cut), Err(Error::CorruptData));
}
