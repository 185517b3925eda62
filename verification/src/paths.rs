//! Paths as text.
//!
//! How a path falls into components depends on the platform, so that part is
//! left to `std::path`: four functions that only this crate can reach call
//! it, and its contracts speak of what it returns under four names. Within
//! one build a name stands for one function of its arguments. How a file name
//! falls into stem and extension is the same everywhere and is decided here.

use crate::text::chars_of;
use vstd::prelude::*;
use vstd::string::StrSliceExecFns;
use vstd::string::StringExecFns;

verus! {

/// What `std::path::Path::file_name` returns for the path `path`.
pub uninterp spec fn path_file_name(path: Seq<char>) -> Option<Seq<char>>;

/// What `std::path::Path::parent` returns for the path `path`.
pub uninterp spec fn path_parent(path: Seq<char>) -> Option<Seq<char>>;

/// What `std::path::Path::join` returns for the path `base` and the path
/// `tail` that is adjoined to it.
pub uninterp spec fn path_join(base: Seq<char>, tail: Seq<char>) -> Seq<char>;

/// What `std::path::Path::strip_prefix` returns for the path `path` and the
/// prefix `base`, with `None` where it reports that `base` is no prefix.
pub uninterp spec fn path_strip_prefix(path: Seq<char>, base: Seq<char>) -> Option<Seq<char>>;

/// Calls `std::path::Path::file_name`: the name of the last component of
/// `path`, or `None` where the path ends in `..` or has no component.
/// Nothing is proved of it; the result is known as `path_file_name`.
#[verifier::external_body]
pub(crate) fn file_name(path: &str) -> (name: Option<String>)
    ensures
        match name {
            Some(n) => path_file_name(path@) == Some(n@),
            None => path_file_name(path@) is None,
        },
{
    match std::path::Path::new(path).file_name() {
        Some(name) => Some(name.to_string_lossy().into_owned()),
        None => None,
    }
}

/// Calls `std::path::Path::parent`: `path` without its last component, or
/// `None` where the path is empty or ends in a root. Nothing is proved of
/// it; the result is known as `path_parent`.
#[verifier::external_body]
pub(crate) fn parent(path: &str) -> (dir: Option<String>)
    ensures
        match dir {
            Some(d) => path_parent(path@) == Some(d@),
            None => path_parent(path@) is None,
        },
{
    match std::path::Path::new(path).parent() {
        Some(dir) => Some(dir.to_string_lossy().into_owned()),
        None => None,
    }
}

/// Calls `std::path::Path::join`: `base` with `tail` adjoined, which is
/// `tail` alone where `tail` is absolute. Nothing is proved of it; the
/// result is known as `path_join`.
#[verifier::external_body]
pub(crate) fn join(base: &str, tail: &str) -> (joined: String)
    ensures
        joined@ == path_join(base@, tail@),
{
    std::path::Path::new(base).join(tail).to_string_lossy().into_owned()
}

/// Calls `std::path::Path::strip_prefix`: what is left of `path` after the
/// components of `base`, or `None` where `path` does not start with them.
/// Nothing is proved of it; the result is known as `path_strip_prefix`.
#[verifier::external_body]
pub(crate) fn strip_prefix(path: &str, base: &str) -> (rest: Option<String>)
    ensures
        match rest {
            Some(r) => path_strip_prefix(path@, base@) == Some(r@),
            None => path_strip_prefix(path@, base@) is None,
        },
{
    match std::path::Path::new(path).strip_prefix(base) {
        Ok(rest) => Some(rest.to_string_lossy().into_owned()),
        Err(_) => None,
    }
}

/// The position of the last dot in `name`, or `-1` where it has none.
pub open spec fn last_dot(name: Seq<char>) -> int
    decreases name.len(),
{
    if name.len() == 0 {
        -1
    } else if name.last() == '.' {
        name.len() - 1
    } else {
        last_dot(name.drop_last())
    }
}

/// The stem of a file name: what stands before its last dot. A name without
/// a dot, or with its only dot in front, is its own stem.
pub open spec fn name_stem(name: Seq<char>) -> Seq<char> {
    if last_dot(name) <= 0 {
        name
    } else {
        name.take(last_dot(name))
    }
}

/// The extension of a file name: what stands behind its last dot. A name
/// without a dot, or with its only dot in front, has none.
pub open spec fn name_extension(name: Seq<char>) -> Option<Seq<char>> {
    if last_dot(name) <= 0 {
        None
    } else {
        Some(name.skip(last_dot(name) + 1))
    }
}

/// `last_dot` is the largest position that holds a dot.
pub proof fn lemma_last_dot(name: Seq<char>)
    ensures
        -1 <= last_dot(name) < name.len(),
        last_dot(name) >= 0 ==> name[last_dot(name)] == '.',
        forall|k: int| last_dot(name) < k < name.len() ==> name[k] != '.',
    decreases name.len(),
{
    if name.len() > 0 && name.last() != '.' {
        let front = name.drop_last();
        lemma_last_dot(front);
        assert forall|k: int| last_dot(name) < k < name.len() implies name[k] != '.' by {
            if k < front.len() {
                assert(name[k] == front[k]);
            }
        }
    }
}

/// Splits a file name into stem and extension.
pub fn split_name(name: &str) -> (parts: (String, Option<String>))
    ensures
        parts.0@ == name_stem(name@),
        match parts.1 {
            Some(ext) => name_extension(name@) == Some(ext@),
            None => name_extension(name@) is None,
        },
{
    let chars = chars_of(name);
    let n: usize = chars.len();
    let mut dot: usize = n;
    let mut i: usize = 0;
    while i < n
        invariant
            n == chars.len(),
            0 <= i <= n,
            dot <= n,
            last_dot(chars@.take(i as int)) == (if dot == n {
                -1
            } else {
                dot as int
            }),
        decreases n - i,
    {
        proof {
            assert(chars@.take(i + 1).drop_last() =~= chars@.take(i as int));
            lemma_last_dot(chars@.take(i as int));
        }
        if chars[i] == '.' {
            dot = i;
        }
        i = i + 1;
    }
    assert(chars@.take(n as int) =~= chars@);
    if dot == n || dot == 0 {
        (String::from_str(name), None)
    } else {
        let stem = String::from_str(name.substring_char(0, dot));
        let ext = String::from_str(name.substring_char(dot + 1, n));
        (stem, Some(ext))
    }
}

} // verus!
