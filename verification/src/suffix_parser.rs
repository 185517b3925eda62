//! Reads the suffix numbers out of free-form text.
//!
//! The text is cut at commas and at white space. Each piece that is a
//! decimal numeral within the range of `u32` gives one suffix, and every
//! other piece is passed over.

use crate::text::chars_of;
use std::collections::HashSet;
use vstd::prelude::*;

verus! {

broadcast use vstd::std_specs::hash::group_hash_axioms;

/// The characters with the Unicode property `White_Space`.
pub open spec fn is_whitespace(c: char) -> bool {
    let u = c as u32;
    ||| 0x09 <= u <= 0x0D
    ||| u == 0x20
    ||| u == 0x85
    ||| u == 0xA0
    ||| u == 0x1680
    ||| 0x2000 <= u <= 0x200A
    ||| u == 0x2028
    ||| u == 0x2029
    ||| u == 0x202F
    ||| u == 0x205F
    ||| u == 0x3000
}

/// A comma or a white-space character: what stands between two tokens.
pub open spec fn is_separator(c: char) -> bool {
    c == ',' || is_whitespace(c)
}

/// The decimal digits `0` to `9`.
pub open spec fn is_digit(c: char) -> bool {
    '0' <= c <= '9'
}

/// The number that a decimal digit stands for.
pub open spec fn digit_value(c: char) -> nat {
    if is_digit(c) {
        (c as u32 - '0' as u32) as nat
    } else {
        0
    }
}

/// Whether every character of `d` is a decimal digit.
pub open spec fn all_digits(d: Seq<char>) -> bool {
    forall|k: int| 0 <= k < d.len() ==> is_digit(#[trigger] d[k])
}

/// The number that a sequence of decimal digits denotes, the first digit
/// weighing most.
pub open spec fn digits_value(d: Seq<char>) -> nat
    decreases d.len(),
{
    if d.len() == 0 {
        0
    } else {
        digits_value(d.drop_last()) * 10 + digit_value(d.last())
    }
}

/// A token without the single plus sign that may lead it.
pub open spec fn unsigned_part(t: Seq<char>) -> Seq<char> {
    if t.len() > 0 && t[0] == '+' {
        t.skip(1)
    } else {
        t
    }
}

/// The suffix that a token denotes: its digits, after an optional plus sign,
/// read as a decimal number. A token with no digit, with any other character
/// or with a value above `u32::MAX` denotes none.
pub open spec fn parse_number(t: Seq<char>) -> Option<u32> {
    let d = unsigned_part(t);
    if d.len() > 0 && all_digits(d) && digits_value(d) <= u32::MAX {
        Some(digits_value(d) as u32)
    } else {
        None
    }
}

/// `s[i..j]` is a token of `s`: a non-empty run without separators that
/// cannot be extended on either side.
pub open spec fn is_token(s: Seq<char>, i: int, j: int) -> bool {
    &&& 0 <= i < j <= s.len()
    &&& forall|k: int| i <= k < j ==> !is_separator(#[trigger] s[k])
    &&& (i == 0 || is_separator(s[i - 1]))
    &&& (j == s.len() || is_separator(s[j]))
}

/// The suffixes that the text `s` names: the numbers denoted by its tokens.
pub open spec fn suffixes_of(s: Seq<char>) -> Set<u32> {
    Set::new(
        |n: u32|
            exists|i: int, j: int| #[trigger]
                is_token(s, i, j) && parse_number(s.subrange(i, j)) == Some(n),
    )
}

/// The suffixes named by those tokens of `s` that end before position `p`.
pub closed spec fn suffixes_before(s: Seq<char>, p: int) -> Set<u32> {
    Set::new(
        |n: u32|
            exists|i: int, j: int| #[trigger]
                is_token(s, i, j) && j < p && parse_number(s.subrange(i, j)) == Some(n),
    )
}

/// A longer run of digits never denotes less than one of its prefixes.
proof fn lemma_digits_value_prefix(d: Seq<char>, k: int)
    requires
        0 <= k <= d.len(),
    ensures
        digits_value(d.take(k)) <= digits_value(d),
    decreases d.len(),
{
    if k == d.len() {
        assert(d.take(k) =~= d);
    } else {
        assert(d.drop_last().take(k) =~= d.take(k));
        lemma_digits_value_prefix(d.drop_last(), k);
    }
}

/// Whether `c` separates tokens.
pub fn separates(c: char) -> (b: bool)
    ensures
        b == is_separator(c),
{
    let u: u32 = c as u32;
    c == ',' || (0x09 <= u && u <= 0x0D) || u == 0x20 || u == 0x85 || u == 0xA0 || u == 0x1680 || (
    0x2000 <= u && u <= 0x200A) || u == 0x2028 || u == 0x2029 || u == 0x202F || u == 0x205F || u
        == 0x3000
}

/// Reads `chars[start..end]` as one token.
pub fn parse_token(chars: &Vec<char>, start: usize, end: usize) -> (r: Option<u32>)
    requires
        start <= end <= chars.len(),
    ensures
        r == parse_number(chars@.subrange(start as int, end as int)),
{
    let ghost t = chars@.subrange(start as int, end as int);
    let mut i: usize = start;
    if i < end && chars[i] == '+' {
        i = i + 1;
    }
    let first: usize = i;
    let ghost d = chars@.subrange(first as int, end as int);
    assert(d =~= unsigned_part(t));
    if first == end {
        return None;
    }
    let mut value: u64 = 0;
    while i < end
        invariant
            start <= first <= i <= end <= chars.len(),
            d == chars@.subrange(first as int, end as int),
            d == unsigned_part(chars@.subrange(start as int, end as int)),
            all_digits(d.take(i - first)),
            value == digits_value(d.take(i - first)),
            value <= u32::MAX,
        decreases end - i,
    {
        let c: char = chars[i];
        assert(c == d[i - first]);
        if !('0' <= c && c <= '9') {
            return None;
        }
        let digit: u64 = (c as u32 - '0' as u32) as u64;
        value = value * 10 + digit;
        proof {
            let longer = d.take(i + 1 - first);
            assert(longer.drop_last() =~= d.take(i - first));
            assert(longer.last() == c);
            assert forall|k: int| 0 <= k < longer.len() implies is_digit(#[trigger] longer[k]) by {
                if k < i - first {
                    assert(longer[k] == d.take(i - first)[k]);
                }
            }
            lemma_digits_value_prefix(d, i + 1 - first);
        }
        if value > 0xFFFF_FFFF {
            return None;
        }
        i = i + 1;
    }
    assert(d.take(d.len() as int) =~= d);
    Some(value as u32)
}

/// Reads suffix numbers from text in which commas and white space separate
/// the tokens.
///
/// The result holds exactly the numbers that some token of `input` denotes.
/// A token that denotes none is passed over, so text without a valid token
/// gives the empty set.
pub fn parse_suffixes(input: &str) -> (set: HashSet<u32>)
    ensures
        set@ == suffixes_of(input@),
{
    let chars = chars_of(input);
    let ghost s = chars@;
    let n: usize = chars.len();
    let mut set: HashSet<u32> = HashSet::new();
    let mut start: usize = 0;
    let mut pos: usize = 0;
    assert(set@ =~= suffixes_before(s, 0));
    while pos < n
        invariant
            s == chars@,
            n == s.len(),
            0 <= start <= pos <= n,
            forall|k: int| start <= k < pos ==> !is_separator(#[trigger] s[k]),
            start == 0 || is_separator(s[start - 1]),
            set@ == suffixes_before(s, pos as int),
        decreases n - pos,
    {
        let ghost before = set@;
        if separates(chars[pos]) {
            if start < pos {
                match parse_token(&chars, start, pos) {
                    Some(number) => {
                        set.insert(number);
                    },
                    None => {},
                }
            }
            proof {
                let closed = parse_number(s.subrange(start as int, pos as int));
                assert forall|i: int, j: int| #[trigger] is_token(s, i, j) && j == pos implies i
                    == start by {
                    if i < start {
                        assert(!is_separator(s[start - 1]));
                    }
                    if i > start {
                        assert(!is_separator(s[i - 1]));
                    }
                }
                if start < pos {
                    assert(is_token(s, start as int, pos as int));
                }
                assert forall|m: u32| #[trigger]
                    set@.contains(m) <==> suffixes_before(s, pos + 1).contains(m) by {
                    if suffixes_before(s, pos + 1).contains(m) {
                        let (i, j) = choose|i: int, j: int| #[trigger]
                            is_token(s, i, j) && j < pos + 1 && parse_number(s.subrange(i, j))
                                == Some(m);
                        if j < pos {
                            assert(before.contains(m));
                        } else {
                            assert(i == start);
                        }
                    }
                    if before.contains(m) {
                        let (i, j) = choose|i: int, j: int| #[trigger]
                            is_token(s, i, j) && j < pos && parse_number(s.subrange(i, j)) == Some(
                                m,
                            );
                        assert(is_token(s, i, j) && j < pos + 1);
                    }
                }
                assert(set@ =~= suffixes_before(s, pos + 1));
            }
            start = pos + 1;
        } else {
            proof {
                assert forall|m: u32| #[trigger]
                    before.contains(m) <==> suffixes_before(s, pos + 1).contains(m) by {
                    if suffixes_before(s, pos + 1).contains(m) {
                        let (i, j) = choose|i: int, j: int| #[trigger]
                            is_token(s, i, j) && j < pos + 1 && parse_number(s.subrange(i, j))
                                == Some(m);
                        assert(j != pos);
                        assert(is_token(s, i, j) && j < pos);
                    }
                    if before.contains(m) {
                        let (i, j) = choose|i: int, j: int| #[trigger]
                            is_token(s, i, j) && j < pos && parse_number(s.subrange(i, j)) == Some(
                                m,
                            );
                        assert(is_token(s, i, j) && j < pos + 1);
                    }
                }
                assert(before =~= suffixes_before(s, pos + 1));
            }
        }
        pos = pos + 1;
    }
    let ghost before = set@;
    if start < n {
        match parse_token(&chars, start, n) {
            Some(number) => {
                set.insert(number);
            },
            None => {},
        }
    }
    proof {
        assert forall|i: int, j: int| #[trigger] is_token(s, i, j) && j == n implies i == start by {
            if i < start {
                assert(!is_separator(s[start - 1]));
            }
            if i > start {
                assert(!is_separator(s[i - 1]));
            }
        }
        if start < n {
            assert(is_token(s, start as int, n as int));
        }
        assert forall|m: u32| #[trigger] set@.contains(m) <==> suffixes_of(s).contains(m) by {
            if suffixes_of(s).contains(m) {
                let (i, j) = choose|i: int, j: int| #[trigger]
                    is_token(s, i, j) && parse_number(s.subrange(i, j)) == Some(m);
                if j < n {
                    assert(is_token(s, i, j) && j < n);
                    assert(before.contains(m));
                } else {
                    assert(i == start);
                }
            }
            if before.contains(m) {
                let (i, j) = choose|i: int, j: int| #[trigger]
                    is_token(s, i, j) && j < n && parse_number(s.subrange(i, j)) == Some(m);
                assert(is_token(s, i, j));
            }
        }
        assert(set@ =~= suffixes_of(s));
    }
    set
}

} // verus!
