use photo_suffix_mover::paths::split_name;
use photo_suffix_mover::scanner::{
    is_image_extension, list_images_under, scan_source_for_suffixes, stem_ends_with_suffix,
    ImageEntry, TreeEntry,
};
use std::collections::HashSet;
use std::path::Path;

fn set_of(numbers: &[u32]) -> HashSet<u32> {
    numbers.iter().copied().collect()
}

fn file(path: &str) -> TreeEntry {
    TreeEntry { path: path.to_string(), is_file: true }
}

fn dir(path: &str) -> TreeEntry {
    TreeEntry { path: path.to_string(), is_file: false }
}

fn paths_of(entries: &[ImageEntry]) -> Vec<String> {
    entries.iter().map(|e| e.path.clone()).collect()
}

#[test]
fn suffix_is_matched_as_text_at_the_end_of_the_stem() {
    let twelve = set_of(&[12]);
    assert!(stem_ends_with_suffix("IMG_0012", &twelve));
    assert!(stem_ends_with_suffix("IMG_112", &twelve));
    assert!(!stem_ends_with_suffix("IMG_0123", &twelve));
    assert!(stem_ends_with_suffix("12", &twelve));
    assert!(!stem_ends_with_suffix("2", &twelve));
    assert!(!stem_ends_with_suffix("", &twelve));
    assert!(!stem_ends_with_suffix("IMG_12 ", &twelve));
}

#[test]
fn suffix_match_needs_one_suffix_of_the_set() {
    let some = set_of(&[7605, 7608, 7612]);
    assert!(stem_ends_with_suffix("DSC_7608", &some));
    assert!(stem_ends_with_suffix("DSC_17612", &some));
    assert!(!stem_ends_with_suffix("DSC_7609", &some));
    assert!(!stem_ends_with_suffix("DSC_7608", &set_of(&[])));
}

#[test]
fn suffix_zero_and_the_largest_suffix_are_matched() {
    assert!(stem_ends_with_suffix("IMG_10", &set_of(&[0])));
    assert!(!stem_ends_with_suffix("IMG_1", &set_of(&[0])));
    assert!(stem_ends_with_suffix("x4294967295", &set_of(&[u32::MAX])));
    assert!(!stem_ends_with_suffix("x294967295", &set_of(&[u32::MAX])));
}

#[test]
fn suffix_is_matched_without_leading_zeros() {
    // The suffix 7 is the numeral "7", whatever the text it was read from.
    let seven = photo_suffix_mover::suffix_parser::parse_suffixes("007");
    assert!(stem_ends_with_suffix("IMG_7", &seven));
    assert!(stem_ends_with_suffix("IMG_007", &seven));
    assert!(stem_ends_with_suffix("IMG_17", &seven));
}

#[test]
fn image_extensions_are_the_eight_known_ones_in_any_case() {
    for ext in ["jpg", "jpeg", "png", "heic", "gif", "tiff", "tif", "webp"] {
        assert!(is_image_extension(ext), "{}", ext);
        assert!(is_image_extension(&ext.to_uppercase()), "{}", ext);
    }
    assert!(is_image_extension("JpEg"));
    assert!(is_image_extension("Png"));
    for ext in ["", "jp", "jpgg", "bmp", "raw", "txt", "jpg ", ".jpg", "j pg", "svg", "mp4"] {
        assert!(!is_image_extension(ext), "{:?}", ext);
    }
}

#[test]
fn image_extension_agrees_with_unicode_lowercasing() {
    let known = ["jpg", "jpeg", "png", "heic", "gif", "tiff", "tif", "webp"];
    let tricky = [
        "JPG", "Jpg", "g\u{130}f", "G\u{130}F", "t\u{131}f", "T\u{130}FF", "we\u{212a}p",
        "\u{212a}", "He\u{131}c", "\u{ff2a}PG", "jpg\u{307}", "gi\u{307}f", "PNG\u{0}", "TIF", "WebP",
    ];
    for ext in tricky {
        let expected = known.contains(&ext.to_lowercase().as_str());
        assert_eq!(is_image_extension(ext), expected, "{:?}", ext);
    }
}

#[test]
fn name_is_split_as_the_standard_library_splits_it() {
    let names = [
        "photo.jpg", "photo", ".hidden", ".hidden.png", "a.", "a.b.c", "archive.tar.gz", "...",
        "a..b", "x.JPG", "no ext", "é.ñ", ".", "IMG_0012.jpeg", "-1.", "..a",
    ];
    for name in names {
        let (stem, ext) = split_name(name);
        let path = Path::new(name);
        if path.file_name().is_some() {
            assert_eq!(Some(stem.as_str()), path.file_stem().and_then(|s| s.to_str()), "{:?}", name);
            assert_eq!(ext.as_deref(), path.extension().and_then(|s| s.to_str()), "{:?}", name);
        }
    }
    assert_eq!(split_name("photo.jpg"), ("photo".to_string(), Some("jpg".to_string())));
    assert_eq!(split_name("photo"), ("photo".to_string(), None));
    assert_eq!(split_name(".hidden"), (".hidden".to_string(), None));
    assert_eq!(split_name("a."), ("a".to_string(), Some(String::new())));
    assert_eq!(split_name("a.b.c"), ("a.b".to_string(), Some("c".to_string())));
    assert_eq!(split_name(""), (String::new(), None));
}

#[test]
fn scan_selects_images_whose_stem_ends_with_a_suffix() {
    let entries = vec![
        dir("/src"),
        file("/src/IMG_0012.jpg"),
        file("/src/IMG_112.png"),
        file("/src/IMG_0123.jpg"),
        dir("/src/sub"),
        file("/src/sub/holiday12.HEIC"),
        file("/src/sub/notes12.txt"),
        file("/src/sub/IMG_12"),
        dir("/src/sub/dir12.jpg"),
        file("/src/sub/12.jpg.bak"),
        file("/src/sub/.12.gif"),
        file("/src/sub/.12"),
        file("/src/12.webp"),
    ];
    let found = scan_source_for_suffixes(&entries, &set_of(&[12]));
    assert_eq!(
        paths_of(&found),
        vec![
            "/src/IMG_0012.jpg",
            "/src/IMG_112.png",
            "/src/sub/holiday12.HEIC",
            "/src/sub/.12.gif",
            "/src/12.webp",
        ]
    );
}

#[test]
fn scan_with_no_suffix_or_no_entry_selects_nothing() {
    let entries = vec![file("/src/IMG_0012.jpg")];
    assert!(scan_source_for_suffixes(&entries, &set_of(&[])).is_empty());
    assert!(scan_source_for_suffixes(&Vec::new(), &set_of(&[12])).is_empty());
    assert!(scan_source_for_suffixes(&entries, &set_of(&[13])).is_empty());
}

#[test]
fn scan_passes_over_paths_without_a_file_name() {
    let entries = vec![file("/"), file(""), file("/src/.."), file("/src/12.jpg/..")];
    assert!(scan_source_for_suffixes(&entries, &set_of(&[12])).is_empty());
    assert!(list_images_under(&entries).is_empty());
}

#[test]
fn list_selects_every_image_whatever_its_name() {
    let entries = vec![
        dir("/dst"),
        file("/dst/a.jpg"),
        file("/dst/b.JPEG"),
        file("/dst/c.txt"),
        file("/dst/d"),
        dir("/dst/e.png"),
        file("/dst/sub/f.tif"),
        file("/dst/sub/.g.webp"),
        file("/dst/sub/.png"),
    ];
    assert_eq!(
        list_images_under(&entries),
        vec!["/dst/a.jpg", "/dst/b.JPEG", "/dst/sub/f.tif", "/dst/sub/.g.webp"]
    );
    assert!(list_images_under(&Vec::new()).is_empty());
}
