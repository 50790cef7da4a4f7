use druid_segment::error::{DruidSegmentError, ErrorKind};
use druid_segment::segment::name_order::name_order;
use druid_segment::segment::smoosh::{SmooshEntry, SmooshIndex, SmooshReader};
use druid_segment::segment::text::{
    chars_text, parse_number, split_chars, text_chars, trim_chars,
};

fn chars(text: &str) -> Vec<char> {
    text.chars().collect()
}

#[test]
fn lookup_returns_the_bytes_of_the_entry() {
    let index = SmooshIndex::parse("v1,2147483647,1\nfoo,0,10,17\n").unwrap();
    assert_eq!(index.num_chunks(), 1);
    let chunk = b"XXXXXXXXXXHELLO!!";
    let reader = SmooshReader::open(&index, vec![&chunk[..]]).unwrap();
    assert_eq!(reader.map_file("foo").unwrap(), b"HELLO!!");
    assert_eq!(reader.map_file("foo").unwrap().len(), 7);
    assert!(reader.has_file("foo"));
    assert!(!reader.has_file("bar"));
    assert_eq!(reader.len(), 1);
    assert!(!reader.is_empty());
    let entry = reader.entry("foo").unwrap();
    assert_eq!(entry.name, "foo");
    assert_eq!(entry.chunk_number, 0);
    assert_eq!(entry.start_offset, 10);
    assert_eq!(entry.end_offset, 17);
    assert_eq!(entry.size(), 7);
    assert!(reader.entry("fo").is_none());
}

#[test]
fn absent_name_is_not_found() {
    let index = SmooshIndex::parse("v1,100,1\nfoo,0,0,1").unwrap();
    let chunk = [1u8, 2, 3];
    let reader = SmooshReader::open(&index, vec![&chunk[..]]).unwrap();
    let err = reader.map_file("missing").unwrap_err();
    assert!(matches!(err, DruidSegmentError::LogicalFileNotFound(name) if name == "missing"));
}

#[test]
fn entry_outside_its_chunk_is_an_invalid_archive() {
    let text = "v1,100,2\npast_end,0,1,4\nno_chunk,2,0,1\nreversed,1,2,1\nwhole,1,0,2\nnone,1,2,2";
    let index = SmooshIndex::parse(text).unwrap();
    let first = [1u8, 2, 3];
    let second = [4u8, 5];
    let reader = SmooshReader::open(&index, vec![&first[..], &second[..]]).unwrap();
    assert_eq!(reader.map_file("past_end").unwrap_err().kind(), ErrorKind::InvalidSmooshMeta);
    assert_eq!(reader.map_file("no_chunk").unwrap_err().kind(), ErrorKind::InvalidSmooshMeta);
    assert_eq!(reader.map_file("reversed").unwrap_err().kind(), ErrorKind::InvalidSmooshMeta);
    assert_eq!(reader.map_file("whole").unwrap(), &[4u8, 5][..]);
    assert_eq!(reader.map_file("none").unwrap(), &[0u8; 0][..]);
}

#[test]
fn number_of_chunks_must_match_the_header() {
    let chunk = [0u8; 4];
    let index = SmooshIndex::parse("v1,100,2\n").unwrap();
    assert_eq!(
        SmooshReader::open(&index, vec![&chunk[..]]).err().unwrap().kind(),
        ErrorKind::InvalidSmooshMeta
    );
    let index = SmooshIndex::parse("v1,100,0").unwrap();
    let reader = SmooshReader::open(&index, vec![]).unwrap();
    assert!(reader.is_empty());
    assert_eq!(reader.len(), 0);
}

#[test]
fn malformed_index_is_an_invalid_archive() {
    let cases = [
        "",
        "\n",
        "v1",
        "v1,100",
        "v2,100,1",
        "V1,100,1",
        " v1,100,1",
        "v1,100,one",
        "v1,100,",
        "v1,100,-1",
        "v1,100,1\nfoo",
        "v1,100,1\nfoo,0,1",
        "v1,100,1\nfoo,x,0,1",
        "v1,100,1\nfoo,0,y,1",
        "v1,100,1\nfoo,0,0,z",
        "v1,100,1\nfoo,0,0,-1",
        "v1,100,1\nfoo, 0,0,1",
        "v1,100,1\nfoo,0,0,1 2",
        "v1,100,1\nfoo,0,0,",
        "v1,100,1\nfoo,0,0,+",
        "v1,100,1\nfoo,0,0,99999999999999999999999999",
        "v1,100,1\nok,0,0,1\nbroken\nlater,0,0,1",
    ];
    for text in cases.iter() {
        assert_eq!(
            SmooshIndex::parse(text).err().unwrap().kind(),
            ErrorKind::InvalidSmooshMeta
        );
    }
}

#[test]
fn blank_lines_and_surrounding_white_space_are_tolerated() {
    let text = "v1,2147483647, 3 \r\n\r\n  a,0,1,2  \r\n\n\t\nb,1,3,4,extra\n\u{a0}c,2,5,6\u{2003}\n";
    let index = SmooshIndex::parse(text).unwrap();
    assert_eq!(index.num_chunks(), 3);
    assert_eq!(index.len(), 3);
    let a = index.entry("a").unwrap();
    assert_eq!((a.chunk_number, a.start_offset, a.end_offset), (0, 1, 2));
    let b = index.entry("b").unwrap();
    assert_eq!((b.chunk_number, b.start_offset, b.end_offset), (1, 3, 4));
    let c = index.entry("c").unwrap();
    assert_eq!((c.chunk_number, c.start_offset, c.end_offset), (2, 5, 6));
}

#[test]
fn plus_sign_and_leading_zeros_are_read_as_numbers() {
    let index = SmooshIndex::parse("v1,1,+2\nx,+0,007,+0010").unwrap();
    assert_eq!(index.num_chunks(), 2);
    let x = index.entry("x").unwrap();
    assert_eq!((x.chunk_number, x.start_offset, x.end_offset), (0, 7, 10));
}

#[test]
fn entries_are_listed_in_ascending_order_of_name() {
    let text = "v1,9,1\nuser,0,0,1\n__time,0,1,2\nchannel,0,2,3\nadded,0,3,4\nindex.drd,0,4,5\nZ,0,5,6\nab,0,6,7\na,0,7,8\n\u{e9}t\u{e9},0,8,9";
    let index = SmooshIndex::parse(text).unwrap();
    let listed: Vec<&str> = index.entries().iter().map(|e| e.name.as_str()).collect();
    let mut sorted = listed.clone();
    sorted.sort();
    assert_eq!(listed, sorted);
    assert_eq!(
        listed,
        vec!["Z", "__time", "a", "ab", "added", "channel", "index.drd", "user", "\u{e9}t\u{e9}"]
    );
    let chunk = [0u8; 9];
    let reader = SmooshReader::open(&index, vec![&chunk[..]]).unwrap();
    assert_eq!(
        reader.file_names(),
        vec!["Z", "__time", "a", "ab", "added", "channel", "index.drd", "user", "\u{e9}t\u{e9}"]
    );
    assert_eq!(reader.entries().len(), 9);
    assert_eq!(reader.entries()[2].end_offset, 8);
    assert!(reader.has_file("\u{e9}t\u{e9}"));
}

#[test]
fn last_line_of_a_name_stands() {
    let index = SmooshIndex::parse("v1,9,1\nfoo,0,0,1\nbar,0,1,2\nfoo,0,5,9\n").unwrap();
    assert_eq!(index.len(), 2);
    assert!(!index.is_empty());
    let foo = index.entry("foo").unwrap();
    assert_eq!((foo.start_offset, foo.end_offset), (5, 9));
    assert!(index.has_file("bar"));
}

#[test]
fn names_may_hold_anything_but_a_comma() {
    let index = SmooshIndex::parse("v1,9,1\nwith space and.dots/\u{1F600},0,0,1").unwrap();
    assert!(index.has_file("with space and.dots/\u{1F600}"));
    let empty_name = SmooshIndex::parse("v1,9,1\n,0,0,1").unwrap();
    assert!(empty_name.has_file(""));
}

#[test]
fn size_of_an_entry() {
    let entry = SmooshEntry {
        name: "x".to_string(),
        chunk_number: 0,
        start_offset: 1_000,
        end_offset: 1_234_567,
    };
    assert_eq!(entry.size(), 1_233_567);
}

#[test]
fn text_helpers() {
    assert_eq!(text_chars("a\u{e9}\u{1F600}"), vec!['a', '\u{e9}', '\u{1F600}']);
    assert_eq!(chars_text(&chars("na\u{ef}ve")), "na\u{ef}ve");
    assert_eq!(name_order(&chars("abc"), &chars("abd")), 0);
    assert_eq!(name_order(&chars("abc"), &chars("abc")), 1);
    assert_eq!(name_order(&chars("abd"), &chars("abc")), 2);
    assert_eq!(name_order(&chars("ab"), &chars("abc")), 0);
    assert_eq!(name_order(&chars("b"), &chars("abc")), 2);
    assert_eq!(name_order(&chars(""), &chars("")), 1);
    assert_eq!(
        split_chars(&chars("a,,b,"), ','),
        vec![chars("a"), chars(""), chars("b"), chars("")]
    );
    assert_eq!(split_chars(&chars(""), ','), vec![chars("")]);
    assert_eq!(trim_chars(&chars(" \t x y \r\n")), chars("x y"));
    assert_eq!(trim_chars(&chars(" \u{3000} ")), chars(""));
    assert_eq!(parse_number(&chars("42")), Some(42));
    assert_eq!(parse_number(&chars("+42")), Some(42));
    assert_eq!(parse_number(&chars("")), None);
    assert_eq!(parse_number(&chars("4 2")), None);
    assert_eq!(parse_number(&chars("18446744073709551615")), Some(usize::MAX));
    assert_eq!(parse_number(&chars("18446744073709551616")), None);
}
