use photo_suffix_mover::hasher::{to_hex, ContentHasher};
use photo_suffix_mover::index::DestinationIndex;

fn fingerprint(chunks: &[&[u8]]) -> String {
    let mut hasher = ContentHasher::new();
    for chunk in chunks {
        hasher.update(chunk);
    }
    hasher.finalize()
}

#[test]
fn fingerprint_is_the_sha256_digest_in_small_hex() {
    assert_eq!(
        fingerprint(&[b"hello world"]),
        "b94d27b9934d3e08a52e52d7da7dabfac484efe37a5380ee9088f7ace2efcde9"
    );
    assert_eq!(
        fingerprint(&[b"abc"]),
        "ba7816bf8f01cfea414140de5dae2223b00361a396177a9cb410ff61f20015ad"
    );
}

#[test]
fn fingerprint_of_nothing_is_the_digest_of_the_empty_message() {
    let empty = "e3b0c44298fc1c149afbf4c8996fb92427ae41e4649b934ca495991b7852b855";
    assert_eq!(fingerprint(&[]), empty);
    assert_eq!(fingerprint(&[b""]), empty);
    assert_eq!(fingerprint(&[b"", b"", b""]), empty);
}

#[test]
fn fingerprint_has_sixty_four_small_hex_digits() {
    for content in [&b""[..], &b"a"[..], &[0u8; 1000][..], &[255u8; 70000][..]] {
        let hex = fingerprint(&[content]);
        assert_eq!(hex.len(), 64);
        assert!(hex.chars().all(|c| c.is_ascii_digit() || ('a'..='f').contains(&c)));
    }
}

#[test]
fn fingerprint_does_not_depend_on_the_chunks() {
    let whole = fingerprint(&[b"hello world"]);
    assert_eq!(fingerprint(&[b"hello", b" ", b"world"]), whole);
    assert_eq!(fingerprint(&[b"h", b"ello worl", b"d"]), whole);
    assert_eq!(fingerprint(&[b"", b"hello world", b""]), whole);

    let big: Vec<u8> = (0..200_000u32).map(|i| (i % 251) as u8).collect();
    let at_once = fingerprint(&[&big]);
    let mut hasher = ContentHasher::new();
    for chunk in big.chunks(65536) {
        hasher.update(chunk);
    }
    assert_eq!(hasher.finalize(), at_once);
    let mut hasher = ContentHasher::new();
    for chunk in big.chunks(7) {
        hasher.update(chunk);
    }
    assert_eq!(hasher.finalize(), at_once);
}

#[test]
fn fingerprint_is_the_same_for_the_same_bytes() {
    let first = fingerprint(&[b"the same bytes"]);
    let second = fingerprint(&[b"the same bytes"]);
    assert_eq!(first, second);
}

#[test]
fn fingerprint_changes_with_one_byte() {
    let before = fingerprint(&[b"hello world"]);
    assert_ne!(fingerprint(&[b"hello worle"]), before);
    assert_ne!(fingerprint(&[b"hello world "]), before);
    assert_ne!(fingerprint(&[b"hello worl"]), before);
    assert_ne!(fingerprint(&[b"Hello world"]), before);
}

#[test]
fn hex_writes_two_small_digits_for_each_byte() {
    assert_eq!(to_hex(&Vec::new()), "");
    assert_eq!(to_hex(&vec![0x00, 0x0f, 0xa0, 0xff, 0x12, 0x9a]), "000fa0ff129a");
    for byte in 0..=255u8 {
        assert_eq!(to_hex(&vec![byte]), format!("{:02x}", byte));
    }
}

#[test]
fn index_holds_what_was_put_in() {
    let mut index = DestinationIndex::new();
    assert_eq!(index.len(), 0);
    assert!(!index.contains(&"abc".to_string()));
    assert!(index.insert("abc".to_string()));
    assert!(index.contains(&"abc".to_string()));
    assert!(!index.contains(&"abd".to_string()));
    assert!(!index.contains(&"ab".to_string()));
    assert!(!index.contains(&String::new()));
    assert_eq!(index.len(), 1);
}

#[test]
fn index_holds_nothing_twice() {
    let mut index = DestinationIndex::new();
    assert!(index.insert("one".to_string()));
    assert!(index.insert("two".to_string()));
    assert!(!index.insert("one".to_string()));
    assert!(!index.insert("two".to_string()));
    assert!(index.insert(String::new()));
    assert!(!index.insert(String::new()));
    assert_eq!(index.len(), 3);
    assert!(index.contains(&"one".to_string()));
    assert!(index.contains(&"two".to_string()));
    assert!(index.contains(&String::new()));
}
