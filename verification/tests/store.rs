use witch_craft::error::StoreLoadError;
use witch_craft::signature::{SignatureDatabase, SignatureStore};
use witch_craft::text::{contains, copy_of, field_equals, holds_delimiter, matches_at, split_lines};

fn lines(db: &SignatureDatabase) -> Vec<Vec<u8>> {
    (0..db.len()).map(|at| db.line(at).unwrap().to_vec()).collect()
}

fn bytes(lines: &[&str]) -> Vec<Vec<u8>> {
    lines.iter().map(|line| line.as_bytes().to_vec()).collect()
}

#[test]
fn lines_end_at_line_feeds() {
    assert_eq!(split_lines(b"one\ntwo\nthree"), bytes(&["one", "two", "three"]));
}

#[test]
fn a_line_feed_at_the_end_opens_no_line() {
    assert_eq!(split_lines(b"one\ntwo\n"), bytes(&["one", "two"]));
}

#[test]
fn a_carriage_return_before_a_line_feed_is_dropped() {
    assert_eq!(split_lines(b"one\r\ntwo\r\n"), bytes(&["one", "two"]));
}

#[test]
fn only_one_carriage_return_is_dropped() {
    assert_eq!(split_lines(b"one\r\r\n"), bytes(&["one\r"]));
}

#[test]
fn a_carriage_return_without_a_line_feed_stays() {
    assert_eq!(split_lines(b"one\ntwo\r"), bytes(&["one", "two\r"]));
    assert_eq!(split_lines(b"a\rb\n"), bytes(&["a\rb"]));
}

#[test]
fn empty_lines_are_lines() {
    assert_eq!(split_lines(b"\n\none\n\n"), bytes(&["", "", "one", ""]));
    assert_eq!(split_lines(b"\r\n"), bytes(&[""]));
}

#[test]
fn empty_content_has_no_lines() {
    assert_eq!(split_lines(b""), Vec::<Vec<u8>>::new());
}

#[test]
fn text_is_parsed_into_its_lines() {
    let db = SignatureDatabase::parse("abc,one\nxyz,two\n".as_bytes()).unwrap();
    assert_eq!(db.len(), 2);
    assert_eq!(db.line(0), Some(&b"abc,one"[..]));
    assert_eq!(db.line(1), Some(&b"xyz,two"[..]));
    assert_eq!(db.line(2), None);
}

#[test]
fn text_beyond_ascii_is_accepted() {
    let db = SignatureDatabase::parse("abc,schädling\n".as_bytes()).unwrap();
    assert_eq!(lines(&db), vec!["abc,schädling".as_bytes().to_vec()]);
}

#[test]
fn bytes_that_are_no_text_are_malformed() {
    assert_eq!(SignatureDatabase::parse(&[0x61, 0x0a, 0xc3]), Err(StoreLoadError::Malformed));
    assert_eq!(SignatureDatabase::parse(&[0xff]), Err(StoreLoadError::Malformed));
    assert_eq!(SignatureDatabase::parse(&[0xed, 0xa0, 0x80]), Err(StoreLoadError::Malformed));
}

#[test]
fn a_store_is_loaded_or_unavailable() {
    let loaded = SignatureStore::load(String::from("/db"), b"abc\n");
    assert_eq!(
        loaded,
        SignatureStore::Available {
            path: String::from("/db"),
            database: SignatureDatabase::from_lines(bytes(&["abc"])),
        }
    );
    let refused = SignatureStore::load(String::from("/db"), &[0x80]);
    assert_eq!(
        refused,
        SignatureStore::Unavailable {
            path: String::from("/db"),
            load_error: StoreLoadError::Malformed,
        }
    );
}

#[test]
fn search_exact_keeps_order_and_duplicates() {
    let db = SignatureDatabase::from_lines(bytes(&["a,1", "b,2", "1,a", "a,1", "aa,1"]));
    assert_eq!(db.search_exact(b"a"), bytes(&["a,1", "1,a", "a,1"]));
    assert_eq!(db.search_exact(b"1"), bytes(&["a,1", "1,a", "a,1", "aa,1"]));
    assert_eq!(db.search_exact(b"c"), Vec::<Vec<u8>>::new());
}

#[test]
fn search_pattern_keeps_order_and_duplicates() {
    let db = SignatureDatabase::from_lines(bytes(&["xaby", "ba", "ab", "xaby"]));
    assert_eq!(db.search_pattern(b"ab"), bytes(&["xaby", "ab", "xaby"]));
    assert_eq!(db.search_pattern(b"a"), bytes(&["xaby", "ba", "ab", "xaby"]));
    assert_eq!(db.search_pattern(b"abc"), Vec::<Vec<u8>>::new());
}

#[test]
fn contains_finds_a_part_anywhere() {
    assert!(contains(b"hello world", b"hello"));
    assert!(contains(b"hello world", b"o w"));
    assert!(contains(b"hello world", b"world"));
    assert!(contains(b"hello world", b"hello world"));
    assert!(contains(b"hello world", b""));
    assert!(contains(b"", b""));
    assert!(!contains(b"hello world", b"worlds"));
    assert!(!contains(b"hello world", b"hello world!"));
    assert!(!contains(b"", b"a"));
    assert!(contains(b"aab", b"ab"));
}

#[test]
fn matches_at_looks_at_one_offset() {
    assert!(matches_at(b"abcabc", b"abc", 0));
    assert!(matches_at(b"abcabc", b"abc", 3));
    assert!(!matches_at(b"abcabc", b"abc", 1));
    assert!(matches_at(b"abc", b"", 3));
    assert!(!matches_at(b"abc", b"", 4));
    assert!(!matches_at(b"abc", b"bc", 2));
    assert!(!matches_at(b"abc", b"abcd", 0));
    assert!(!matches_at(b"abc", b"a", usize::MAX));
}

#[test]
fn field_equals_compares_whole_fields() {
    assert!(field_equals(b"abc,def,ghi", b"abc"));
    assert!(field_equals(b"abc,def,ghi", b"def"));
    assert!(field_equals(b"abc,def,ghi", b"ghi"));
    assert!(field_equals(b"abc", b"abc"));
    assert!(!field_equals(b"abc,def,ghi", b"ab"));
    assert!(!field_equals(b"abc,def,ghi", b"ef"));
    assert!(!field_equals(b"abc,def,ghi", b"abc,def"));
    assert!(!field_equals(b"abc,def,ghi", b"abc,def,ghi"));
    assert!(!field_equals(b"abc", b"abcd"));
    assert!(field_equals(b"", b""));
    assert!(field_equals(b"a,", b""));
    assert!(field_equals(b",a", b""));
    assert!(!field_equals(b"a", b""));
    assert!(field_equals(b"ab,b", b"b"));
}

#[test]
fn the_delimiter_is_the_comma() {
    assert!(holds_delimiter(b"a,b"));
    assert!(!holds_delimiter(b"a;b"));
    assert!(!holds_delimiter(b""));
}

#[test]
fn a_copy_holds_the_same_bytes() {
    assert_eq!(copy_of(b"abc"), b"abc".to_vec());
    assert_eq!(copy_of(b""), Vec::<u8>::new());
}
