use photo_suffix_mover::text::{chars_of, decimal_string, has_tail, same_chars};

fn chars(s: &str) -> Vec<char> {
    s.chars().collect()
}

#[test]
fn chars_of_gives_the_characters_in_order() {
    assert_eq!(chars_of(""), Vec::<char>::new());
    assert_eq!(chars_of("abc"), vec!['a', 'b', 'c']);
    assert_eq!(chars_of("é\u{1f600}z"), vec!['é', '\u{1f600}', 'z']);
}

#[test]
fn decimal_string_writes_numbers_as_the_standard_library_does() {
    for n in [0u64, 1, 9, 10, 11, 99, 100, 101, 1234567890, 4294967295, 4294967296, u64::MAX] {
        assert_eq!(decimal_string(n), n.to_string());
    }
    assert_eq!(decimal_string(0), "0");
    assert_eq!(decimal_string(7612), "7612");
    assert_eq!(decimal_string(u64::MAX), "18446744073709551615");
}

#[test]
fn has_tail_is_a_test_on_text() {
    assert!(has_tail(&chars("IMG_0012"), &chars("12")));
    assert!(has_tail(&chars("IMG_112"), &chars("12")));
    assert!(!has_tail(&chars("IMG_0123"), &chars("12")));
    assert!(has_tail(&chars("12"), &chars("12")));
    assert!(!has_tail(&chars("2"), &chars("12")));
    assert!(has_tail(&chars("abc"), &chars("")));
    assert!(has_tail(&chars(""), &chars("")));
    assert!(!has_tail(&chars(""), &chars("1")));
}

#[test]
fn same_chars_compares_length_and_content() {
    assert!(same_chars(&chars(""), &chars("")));
    assert!(same_chars(&chars("jpg"), &chars("jpg")));
    assert!(!same_chars(&chars("jpg"), &chars("jpeg")));
    assert!(!same_chars(&chars("jpg"), &chars("jpG")));
    assert!(!same_chars(&chars("jpg"), &chars("")));
}
