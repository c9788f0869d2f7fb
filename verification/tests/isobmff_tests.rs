use exif_meta::error::Error;
use exif_meta::isobmff::{
    find_box, fourcc, read_header, BoxHeader, HeaderRead, IsoBmff, MOOV, TRAK,
};
use exif_meta::span::Span;
use exif_meta::walker::{children, find, find_path, first_node, Node, TreeWalker};

fn boxed(kind: &[u8; 4], body: &[u8]) -> Vec<u8> {
    let mut out = Vec::new();
    out.extend_from_slice(&((body.len() as u32 + 8).to_be_bytes()));
    out.extend_from_slice(kind);
    out.extend_from_slice(body);
    out
}

fn large_boxed(kind: &[u8; 4], body: &[u8]) -> Vec<u8> {
    let mut out = vec![0, 0, 0, 1];
    out.extend_from_slice(kind);
    out.extend_from_slice(&((body.len() as u64 + 16).to_be_bytes()));
    out.extend_from_slice(body);
    out
}

fn tag(kind: &[u8; 4]) -> u32 {
    fourcc(kind[0], kind[1], kind[2], kind[3])
}

#[test]
fn fourcc_is_big_endian() {
    assert_eq!(fourcc(b'm', b'o', b'o', b'v'), MOOV);
    assert_eq!(fourcc(0, 0, 1, 2), 0x0102);
}

#[test]
fn header_of_a_plain_and_of_a_large_box() {
    let plain = boxed(b"free", &[0; 4]);
    assert_eq!(
        read_header(&plain, Span::whole(plain.len())),
        Some(HeaderRead::Found(BoxHeader { box_type: tag(b"free"), header_len: 8, box_size: 12 }))
    );
    let large = large_boxed(b"mdat", &[0; 4]);
    assert_eq!(
        read_header(&large, Span::whole(large.len())),
        Some(HeaderRead::Found(BoxHeader { box_type: tag(b"mdat"), header_len: 16, box_size: 20 }))
    );
}

#[test]
fn header_that_is_cut_short_or_too_small() {
    let plain = boxed(b"free", &[0; 4]);
    assert_eq!(read_header(&plain, Span { start: 0, end: 5 }), Some(HeaderRead::Short(3)));
    let large = large_boxed(b"mdat", &[]);
    assert_eq!(read_header(&large, Span { start: 0, end: 10 }), Some(HeaderRead::Short(6)));
    assert_eq!(
        read_header(&[0, 0, 0, 7, b'f', b'r', b'e', b'e'], Span::whole(8)),
        Some(HeaderRead::Invalid)
    );
    let mut tiny_large = vec![0, 0, 0, 1];
    tiny_large.extend_from_slice(b"mdat");
    tiny_large.extend_from_slice(&15u64.to_be_bytes());
    assert_eq!(read_header(&tiny_large, Span::whole(16)), Some(HeaderRead::Invalid));
    assert_eq!(read_header(&plain, Span { start: 0, end: 99 }), None);
}

#[test]
fn children_fill_their_parent() {
    let mut body = boxed(b"aaaa", &[1, 2, 3]);
    body.extend_from_slice(&large_boxed(b"bbbb", &[4, 5]));
    body.extend_from_slice(&boxed(b"cccc", &[]));
    let file = boxed(b"moov", &body);
    let parent = first_node(&IsoBmff, &file, Span::whole(file.len())).unwrap();
    assert_eq!(parent.tag, MOOV as u64);
    assert_eq!(parent.whole, Span { start: 0, end: file.len() });
    assert_eq!(parent.body, Span { start: 8, end: file.len() });
    let kids = children(&IsoBmff, &file, parent.body).unwrap();
    assert_eq!(
        kids,
        vec![
            Node {
                tag: tag(b"aaaa") as u64,
                whole: Span { start: 8, end: 19 },
                body: Span { start: 16, end: 19 }
            },
            Node {
                tag: tag(b"bbbb") as u64,
                whole: Span { start: 19, end: 37 },
                body: Span { start: 35, end: 37 }
            },
            Node {
                tag: tag(b"cccc") as u64,
                whole: Span { start: 37, end: 45 },
                body: Span { start: 45, end: 45 }
            },
        ]
    );
    let total: usize = kids.iter().map(|k| k.whole.len()).sum();
    assert_eq!(total, parent.body.len());
    assert!(total <= parent.whole.len());
    for k in &kids {
        assert!(parent.whole.start <= k.whole.start && k.whole.end <= parent.whole.end);
    }
}

#[test]
fn child_larger_than_parent_is_corrupt() {
    let mut body = boxed(b"aaaa", &[1, 2, 3]);
    body[3] = 12; // claims one byte more than the parent holds
    let file = boxed(b"moov", &body);
    let parent = first_node(&IsoBmff, &file, Span::whole(file.len())).unwrap();
    assert_eq!(children(&IsoBmff, &file, parent.body), Err(Error::CorruptData));
    assert_eq!(find_box(&file, parent.body, tag(b"zzzz")), Err(Error::CorruptData));
}

#[test]
fn row_with_cut_header_is_unexpected_eof() {
    let mut row = boxed(b"aaaa", &[]);
    row.extend_from_slice(&[0, 0, 0]);
    assert_eq!(children(&IsoBmff, &row, Span::whole(row.len())), Err(Error::UnexpectedEof));
}

#[test]
fn range_outside_the_buffer_is_corrupt() {
    let row = boxed(b"aaaa", &[]);
    assert_eq!(children(&IsoBmff, &row, Span { start: 0, end: 9 }), Err(Error::CorruptData));
    assert_eq!(children(&IsoBmff, &row, Span { start: 5, end: 4 }), Err(Error::CorruptData));
    assert_eq!(find(&IsoBmff, &row, Span { start: 0, end: 9 }, 1), Err(Error::CorruptData));
    assert_eq!(first_node(&IsoBmff, &row, Span { start: 3, end: 3 }), Err(Error::CorruptData));
    assert!(TreeWalker::start(&row, Span { start: 0, end: 9 }).is_err());
}

#[test]
fn find_stops_at_the_first_match() {
    let mut row = boxed(b"aaaa", &[1]);
    row.extend_from_slice(&boxed(b"bbbb", &[2]));
    row.extend_from_slice(&boxed(b"bbbb", &[3, 3]));
    row.extend_from_slice(&[0xFF; 3]); // never looked at when the match comes first
    let found = find_box(&row, Span::whole(row.len()), tag(b"bbbb")).unwrap().unwrap();
    assert_eq!(found.whole, Span { start: 9, end: 18 });
    assert_eq!(found.body.slice(&row), Some(&[2u8][..]));
    assert_eq!(find_box(&row, Span::whole(row.len()), tag(b"cccc")), Err(Error::UnexpectedEof));
    assert_eq!(find_box(&row, Span { start: 0, end: 28 }, tag(b"cccc")), Ok(None));
    assert_eq!(find_box(&row, Span { start: 4, end: 4 }, tag(b"aaaa")), Ok(None));
}

#[test]
fn paths_descend_into_bodies() {
    let inner = boxed(b"iloc", &[7, 7]);
    let mut meta = boxed(b"hdlr", &[0; 4]);
    meta.extend_from_slice(&inner);
    let mut file = boxed(b"ftyp", b"heic");
    file.extend_from_slice(&boxed(b"meta", &meta));
    let whole = Span::whole(file.len());
    let path = [tag(b"meta") as u64, tag(b"iloc") as u64];
    let found = find_path(&IsoBmff, &file, whole, &path).unwrap().unwrap();
    assert_eq!(found.body.slice(&file), Some(&[7u8, 7][..]));
    assert_eq!(find_path(&IsoBmff, &file, whole, &[]), Ok(None));
    assert_eq!(find_path(&IsoBmff, &file, whole, &[tag(b"moov") as u64, 1]), Ok(None));
    assert_eq!(find_path(&IsoBmff, &file, whole, &[tag(b"meta") as u64, 1]), Ok(None));
    let one = find_path(&IsoBmff, &file, whole, &[tag(b"ftyp") as u64]).unwrap().unwrap();
    assert_eq!(one.whole, Span { start: 0, end: 12 });
}

#[test]
fn walk_is_depth_first_and_skips_payload() {
    let mdia = boxed(b"mdia", &boxed(b"hdlr", &[1, 2, 3, 4]));
    let mut trak_body = boxed(b"tkhd", &[9; 6]);
    trak_body.extend_from_slice(&mdia);
    let mut moov_body = boxed(b"mvhd", &[0; 4]);
    moov_body.extend_from_slice(&boxed(b"trak", &trak_body));
    moov_body.extend_from_slice(&boxed(b"meta", &boxed(b"keys", &[])));
    let mut file = boxed(b"ftyp", b"isom");
    // the body of mdat does not read as boxes; the walk must not look into it
    file.extend_from_slice(&boxed(b"mdat", &[0xFF; 13]));
    file.extend_from_slice(&boxed(b"moov", &moov_body));
    let mut walker = TreeWalker::start(&file, Span::whole(file.len())).unwrap();
    let (nodes, end) = walker.collect(&IsoBmff, &file);
    assert_eq!(end, None);
    let tags: Vec<u64> = nodes.iter().map(|n| n.tag).collect();
    let expected: Vec<u64> = [
        b"ftyp", b"mdat", b"moov", b"mvhd", b"trak", b"tkhd", b"mdia", b"hdlr", b"meta",
    ]
    .iter()
    .map(|k| tag(k) as u64)
    .collect();
    assert_eq!(tags, expected);
    assert_eq!(nodes[4].tag, TRAK as u64);
    assert_eq!(walker.next(&IsoBmff, &file), None);
}

#[test]
fn walk_hands_out_nodes_before_a_failure_and_then_ends() {
    let mut moov_body = boxed(b"mvhd", &[0; 4]);
    moov_body.extend_from_slice(&[0, 0, 0, 2, b'b', b'a', b'd', b'!']);
    let mut file = boxed(b"moov", &moov_body);
    file.extend_from_slice(&boxed(b"free", &[]));
    let mut walker = TreeWalker::start(&file, Span::whole(file.len())).unwrap();
    assert_eq!(walker.next(&IsoBmff, &file).unwrap().unwrap().tag, MOOV as u64);
    assert_eq!(walker.next(&IsoBmff, &file).unwrap().unwrap().tag, tag(b"mvhd") as u64);
    assert_eq!(walker.next(&IsoBmff, &file), Some(Err(Error::CorruptData)));
    assert_eq!(walker.next(&IsoBmff, &file), None);
}

#[test]
fn walk_of_an_empty_range_is_empty() {
    let file = boxed(b"free", &[]);
    let mut walker = TreeWalker::start(&file, Span { start: 8, end: 8 }).unwrap();
    assert_eq!(walker.collect(&IsoBmff, &file), (vec![], None));
}
