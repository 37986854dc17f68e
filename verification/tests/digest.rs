use witch_craft::digest::{calculate_sha256_hash, has_digest_form, hex_digit, Digest};

const HELLO: &str = "2cf24dba5fb0a30e26e83b2ac5b9e29e1b161e5c1fa7425e73043362938b9824";
const EMPTY: &str = "e3b0c44298fc1c149afbf4c8996fb92427ae41e4649b934ca495991b7852b855";

#[test]
fn the_digest_of_hello() {
    assert_eq!(calculate_sha256_hash(b"hello").as_bytes(), HELLO.as_bytes());
}

#[test]
fn the_digest_of_nothing() {
    assert_eq!(calculate_sha256_hash(b"").as_bytes(), EMPTY.as_bytes());
}

#[test]
fn a_digest_has_the_form_of_one() {
    let digest = calculate_sha256_hash(b"some content\n");
    assert_eq!(digest.as_bytes().len(), 64);
    assert!(has_digest_form(digest.as_bytes()));
}

#[test]
fn the_same_content_has_the_same_digest() {
    let content = vec![7u8; 5000];
    assert_eq!(calculate_sha256_hash(&content), calculate_sha256_hash(&content));
    assert_eq!(calculate_sha256_hash(&content), calculate_sha256_hash(&content.clone()));
}

#[test]
fn content_that_differs_in_one_byte_has_another_digest() {
    assert_ne!(calculate_sha256_hash(b"hello"), calculate_sha256_hash(b"hellp"));
}

#[test]
fn a_digest_is_parsed_from_its_text() {
    let digest = Digest::parse(HELLO).unwrap();
    assert_eq!(digest.as_bytes(), HELLO.as_bytes());
    assert_eq!(digest, calculate_sha256_hash(b"hello"));
    assert_eq!(digest.clone(), digest);
}

#[test]
fn text_of_another_form_is_no_digest() {
    assert_eq!(Digest::parse(""), None);
    assert_eq!(Digest::parse(&HELLO[..63]), None);
    assert_eq!(Digest::parse(&format!("{}0", HELLO)), None);
    assert_eq!(Digest::parse(&HELLO.to_uppercase()), None);
    assert_eq!(Digest::parse(&format!("{}g", &HELLO[..63])), None);
    assert_eq!(Digest::parse(&format!("{} ", &HELLO[..63])), None);
    assert_eq!(Digest::parse(&"é".repeat(32)), None);
}

#[test]
fn hex_digits_are_the_lower_case_ones() {
    for byte in 0..=255u8 {
        let expected = matches!(byte, b'0'..=b'9' | b'a'..=b'f');
        assert_eq!(hex_digit(byte), expected);
    }
}
