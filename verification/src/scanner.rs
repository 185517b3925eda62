//! Selects image files by extension and by the number their name ends in.
//!
//! Walking a directory tree is the caller's part. It hands over what the walk
//! found, one [`TreeEntry`] for each entry, and gets back the paths that
//! qualify, in the order in which they came.

use crate::paths::{file_name, name_extension, name_stem, path_file_name, split_name};
use crate::text::{chars_of, decimal_digits, decimal_string, ends_with, has_tail, same_chars};
use std::collections::HashSet;
use vstd::prelude::*;
use vstd::std_specs::iter::IteratorSpec;

verus! {

broadcast use vstd::std_specs::hash::group_hash_axioms;

/// One entry that a walk of a directory tree came upon.
pub struct TreeEntry {
    /// The path of the entry.
    pub path: String,
    /// Whether the entry is a regular file.
    pub is_file: bool,
}

/// One candidate image file.
#[derive(Clone, Debug)]
pub struct ImageEntry {
    /// The path of the file.
    pub path: String,
}

/// A letter of `A` to `Z` turned into its small form; any other character
/// as it is.
pub open spec fn ascii_lower(c: char) -> char {
    if 'A' <= c <= 'Z' {
        ((c as u32) + 32) as char
    } else {
        c
    }
}

/// `s` with each of its characters passed through `ascii_lower`.
pub open spec fn lowercase(s: Seq<char>) -> Seq<char> {
    Seq::new(s.len(), |i: int| ascii_lower(s[i]))
}

/// The extensions of the image formats that are recognised.
pub open spec fn image_extensions() -> Set<Seq<char>> {
    set![
        "jpg"@,
        "jpeg"@,
        "png"@,
        "heic"@,
        "gif"@,
        "tiff"@,
        "tif"@,
        "webp"@,
    ]
}

/// Whether `ext` is the extension of a recognised image format, whatever
/// the case of its letters.
pub open spec fn has_image_extension(ext: Seq<char>) -> bool {
    image_extensions().contains(lowercase(ext))
}

/// Whether `stem` ends with the decimal numeral of one of `suffixes`.
pub open spec fn stem_matches(stem: Seq<char>, suffixes: Set<u32>) -> bool {
    exists|n: u32| suffixes.contains(n) && ends_with(stem, #[trigger] decimal_digits(n as nat))
}

/// Whether `entry` is a regular file with the extension of an image format.
pub open spec fn is_image(entry: TreeEntry) -> bool {
    &&& entry.is_file
    &&& path_file_name(entry.path@) matches Some(name)
    &&& name_extension(name) matches Some(ext)
    &&& has_image_extension(ext)
}

/// Whether `entry` is an image whose stem ends with one of `suffixes`.
pub open spec fn is_candidate(entry: TreeEntry, suffixes: Set<u32>) -> bool {
    &&& is_image(entry)
    &&& path_file_name(entry.path@) matches Some(name)
    &&& stem_matches(name_stem(name), suffixes)
}

/// The path of `entry` where it is an image, else nothing.
pub open spec fn image_path(entry: TreeEntry) -> Option<Seq<char>> {
    if is_image(entry) {
        Some(entry.path@)
    } else {
        None
    }
}

/// The path of `entry` where it is a candidate for `suffixes`, else nothing.
pub open spec fn candidate_path(entry: TreeEntry, suffixes: Set<u32>) -> Option<Seq<char>> {
    if is_candidate(entry, suffixes) {
        Some(entry.path@)
    } else {
        None
    }
}

/// The paths of the candidates for `suffixes` among `entries`, in order.
pub open spec fn candidates_among(entries: Seq<TreeEntry>, suffixes: Set<u32>) -> Seq<Seq<char>> {
    entries.filter_map(|e: TreeEntry| candidate_path(e, suffixes))
}

/// The paths of the images among `entries`, in order.
pub open spec fn images_among(entries: Seq<TreeEntry>) -> Seq<Seq<char>> {
    entries.filter_map(|e: TreeEntry| image_path(e))
}

/// A selection holds no more paths than there are entries.
pub proof fn lemma_selection_is_no_longer(entries: Seq<TreeEntry>, suffixes: Set<u32>)
    ensures
        candidates_among(entries, suffixes).len() <= entries.len(),
        images_among(entries).len() <= entries.len(),
{
    lemma_filter_map_is_no_longer(entries, |e: TreeEntry| candidate_path(e, suffixes));
    lemma_filter_map_is_no_longer(entries, |e: TreeEntry| image_path(e));
}

/// What is picked out of a sequence is no longer than the sequence.
proof fn lemma_filter_map_is_no_longer<A, B>(s: Seq<A>, f: spec_fn(A) -> Option<B>)
    ensures
        s.filter_map(f).len() <= s.len(),
    decreases s.len(),
{
    if s.len() > 0 {
        lemma_filter_map_is_no_longer(s.drop_last(), f);
    }
}

/// The paths of a list of image entries.
pub open spec fn entry_paths(entries: Seq<ImageEntry>) -> Seq<Seq<char>> {
    Seq::new(entries.len(), |i: int| entries[i].path@)
}

/// The texts of a list of strings.
pub open spec fn texts(strings: Seq<String>) -> Seq<Seq<char>> {
    Seq::new(strings.len(), |i: int| strings[i]@)
}

/// Whether `ext` is the extension of a recognised image format: `jpg`,
/// `jpeg`, `png`, `heic`, `gif`, `tiff`, `tif` or `webp`, in any mix of
/// capital and small letters.
pub fn is_image_extension(ext: &str) -> (b: bool)
    ensures
        b == has_image_extension(ext@),
{
    let chars = chars_of(ext);
    let mut lower: Vec<char> = Vec::new();
    let mut i: usize = 0;
    while i < chars.len()
        invariant
            0 <= i <= chars.len(),
            lower@ == lowercase(chars@.take(i as int)),
        decreases chars.len() - i,
    {
        let c: char = chars[i];
        let folded: char = if 'A' <= c && c <= 'Z' {
            lower_of(c)
        } else {
            c
        };
        lower.push(folded);
        assert(lower@ =~= lowercase(chars@.take(i + 1)));
        i = i + 1;
    }
    assert(chars@.take(chars.len() as int) =~= chars@);
    same_chars(&lower, &chars_of("jpg")) || same_chars(&lower, &chars_of("jpeg")) || same_chars(
        &lower,
        &chars_of("png"),
    ) || same_chars(&lower, &chars_of("heic")) || same_chars(&lower, &chars_of("gif"))
        || same_chars(&lower, &chars_of("tiff")) || same_chars(&lower, &chars_of("tif"))
        || same_chars(&lower, &chars_of("webp"))
}

/// The small form of a capital letter of `A` to `Z`.
fn lower_of(c: char) -> (l: char)
    requires
        'A' <= c <= 'Z',
    ensures
        l == ascii_lower(c),
{
    let small = "abcdefghijklmnopqrstuvwxyz";
    proof {
        reveal_strlit("abcdefghijklmnopqrstuvwxyz");
    }
    let offset: u32 = c as u32 - 'A' as u32;
    small.get_char(offset as usize)
}

/// Whether `stem` ends with the decimal numeral of at least one of
/// `suffixes`. The test is one on text: the suffix 12 is found at the end of
/// `IMG_0012` and of `IMG_112` alike.
pub fn stem_ends_with_suffix(stem: &str, suffixes: &HashSet<u32>) -> (b: bool)
    ensures
        b == stem_matches(stem@, suffixes@),
{
    let chars = chars_of(stem);
    let ghost keys: Seq<u32> = vstd::std_specs::hash::spec_hash_keys_iter(
        suffixes,
    ).remaining().unref();
    assert(keys.to_set() == suffixes@);
    for suffix in it: suffixes.iter()
        invariant
            chars@ == stem@,
            it.seq().unref() == keys,
            keys.to_set() == suffixes@,
            forall|k: int|
                0 <= k < it.index() ==> !ends_with(
                    stem@,
                    decimal_digits(#[trigger] keys[k] as nat),
                ),
    {
        let numeral = decimal_string(*suffix as u64);
        let digits = chars_of(numeral.as_str());
        assert(keys[it.index()] == *suffix);
        if has_tail(&chars, &digits) {
            proof {
                assert(keys.contains(*suffix));
                assert(suffixes@.contains(*suffix));
            }
            return true;
        }
    }
    proof {
        if stem_matches(stem@, suffixes@) {
            let n = choose|n: u32|
                suffixes@.contains(n) && ends_with(stem@, #[trigger] decimal_digits(n as nat));
            assert(keys.contains(n));
            let k = choose|k: int| 0 <= k < keys.len() && keys[k] == n;
            assert(!ends_with(stem@, decimal_digits(keys[k] as nat)));
        }
    }
    false
}

/// The image files among `entries` whose name, without the extension, ends
/// with the decimal numeral of one of `suffixes`.
///
/// An entry qualifies where it is a regular file, its extension is that of a
/// recognised image format and its stem ends with one of the numerals. The
/// result holds the paths of the entries that qualify, in their order.
pub fn scan_source_for_suffixes(entries: &Vec<TreeEntry>, suffixes: &HashSet<u32>) -> (out: Vec<
    ImageEntry,
>)
    ensures
        entry_paths(out@) == candidates_among(entries@, suffixes@),
{
    let ghost pick = |e: TreeEntry| candidate_path(e, suffixes@);
    let mut out: Vec<ImageEntry> = Vec::new();
    let mut i: usize = 0;
    assert(entry_paths(out@) =~= entries@.take(0).filter_map(pick));
    while i < entries.len()
        invariant
            0 <= i <= entries.len(),
            pick == |e: TreeEntry| candidate_path(e, suffixes@),
            entry_paths(out@) == entries@.take(i as int).filter_map(pick),
        decreases entries.len() - i,
    {
        let entry = &entries[i];
        let ghost before = entry_paths(out@);
        proof {
            entries@.lemma_filter_map_take_succ(pick, i as int);
        }
        if entry.is_file {
            match file_name(entry.path.as_str()) {
                Some(name) => {
                    let (stem, extension) = split_name(name.as_str());
                    match extension {
                        Some(ext) => {
                            if is_image_extension(ext.as_str()) && stem_ends_with_suffix(
                                stem.as_str(),
                                suffixes,
                            ) {
                                out.push(ImageEntry { path: entry.path.clone() });
                                assert(entry_paths(out@) =~= before + seq![entry.path@]);
                            }
                        },
                        None => {},
                    }
                },
                None => {},
            }
        }
        i = i + 1;
    }
    assert(entries@.take(entries.len() as int) =~= entries@);
    out
}

/// The image files among `entries`, whatever their name.
///
/// The result holds the paths of the regular files with the extension of a
/// recognised image format, in their order.
pub fn list_images_under(entries: &Vec<TreeEntry>) -> (out: Vec<String>)
    ensures
        texts(out@) == images_among(entries@),
{
    let ghost pick = |e: TreeEntry| image_path(e);
    let mut out: Vec<String> = Vec::new();
    let mut i: usize = 0;
    assert(texts(out@) =~= entries@.take(0).filter_map(pick));
    while i < entries.len()
        invariant
            0 <= i <= entries.len(),
            pick == |e: TreeEntry| image_path(e),
            texts(out@) == entries@.take(i as int).filter_map(pick),
        decreases entries.len() - i,
    {
        let entry = &entries[i];
        let ghost before = texts(out@);
        proof {
            entries@.lemma_filter_map_take_succ(pick, i as int);
        }
        if entry.is_file {
            match file_name(entry.path.as_str()) {
                Some(name) => {
                    let (_stem, extension) = split_name(name.as_str());
                    match extension {
                        Some(ext) => {
                            if is_image_extension(ext.as_str()) {
                                out.push(entry.path.clone());
                                assert(texts(out@) =~= before + seq![entry.path@]);
                            }
                        },
                        None => {},
                    }
                },
                None => {},
            }
        }
        i = i + 1;
    }
    assert(entries@.take(entries.len() as int) =~= entries@);
    out
}

} // verus!
