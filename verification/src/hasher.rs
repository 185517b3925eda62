//! Content fingerprints.
//!
//! The fingerprint of a file is the SHA-256 digest of its bytes, written in
//! hexadecimal. The digest is computed by the `sha2` crate; this module
//! feeds it, writes out what it returns and states what that is. A caller
//! reads the file in pieces of any size and hands each piece to
//! [`ContentHasher::update`].

use sha2::Digest;
use vstd::prelude::*;
use vstd::string::StringExecFns;

verus! {

/// The hasher of the `sha2` crate. What it holds is hidden from the
/// verifier, which knows of it only what the three functions below state.
#[verifier::external_type_specification]
#[verifier::external_body]
pub struct ExSha256(sha2::Sha256);

/// The bytes that `state` was fed since it was made, in order.
pub uninterp spec fn absorbed(state: sha2::Sha256) -> Seq<u8>;

/// The SHA-256 digest of the message `data`: what `finalize` of
/// `sha2::Digest` returns for a `sha2::Sha256` that was fed `data`.
pub uninterp spec fn sha256(data: Seq<u8>) -> Seq<u8>;

/// Calls `sha2::Sha256::new`. The contract claims that the new hasher was
/// fed nothing.
#[verifier::external_body]
fn sha256_new() -> (state: sha2::Sha256)
    ensures
        absorbed(state) == Seq::<u8>::empty(),
{
    sha2::Sha256::new()
}

/// Calls `update` of `sha2::Digest`. The contract claims that the hasher
/// was then fed `chunk` after all that it was fed before.
#[verifier::external_body]
fn sha256_update(state: &mut sha2::Sha256, chunk: &[u8])
    ensures
        absorbed(*final(state)) == absorbed(*old(state)) + chunk@,
{
    state.update(chunk);
}

/// Calls `finalize` of `sha2::Digest`. The contract claims that the result
/// is the digest of all the bytes fed, taken as one message however they
/// were divided into chunks, and that it has 32 bytes.
#[verifier::external_body]
fn sha256_finalize(state: sha2::Sha256) -> (digest: Vec<u8>)
    ensures
        digest@ == sha256(absorbed(state)),
        digest@.len() == 32,
{
    state.finalize().to_vec()
}

/// The hexadecimal digit for `n`, for `n` below sixteen, with small
/// letters.
pub open spec fn hex_digit(n: nat) -> char {
    if n < 10 {
        (('0' as u32) + n) as char
    } else {
        (('a' as u32) + n - 10) as char
    }
}

/// `bytes` in hexadecimal: two digits for each byte, the higher first.
pub open spec fn hex_digits(bytes: Seq<u8>) -> Seq<char>
    decreases bytes.len(),
{
    if bytes.len() == 0 {
        Seq::empty()
    } else {
        hex_digits(bytes.drop_last()).push(hex_digit((bytes.last() / 16) as nat)).push(
            hex_digit((bytes.last() % 16) as nat),
        )
    }
}

/// The fingerprint of the content `data`: its SHA-256 digest in
/// hexadecimal.
pub open spec fn fingerprint_of(data: Seq<u8>) -> Seq<char> {
    hex_digits(sha256(data))
}

/// Hexadecimal takes two digits for each byte.
pub proof fn lemma_hex_digits_len(bytes: Seq<u8>)
    ensures
        hex_digits(bytes).len() == 2 * bytes.len(),
    decreases bytes.len(),
{
    if bytes.len() > 0 {
        lemma_hex_digits_len(bytes.drop_last());
    }
}

/// The one-character text of the hexadecimal digit for `n`.
fn hex_text(n: u8) -> (s: &'static str)
    requires
        n < 16,
    ensures
        s@ == seq![hex_digit(n as nat)],
{
    proof {
        reveal_strlit("0");
        reveal_strlit("1");
        reveal_strlit("2");
        reveal_strlit("3");
        reveal_strlit("4");
        reveal_strlit("5");
        reveal_strlit("6");
        reveal_strlit("7");
        reveal_strlit("8");
        reveal_strlit("9");
        reveal_strlit("a");
        reveal_strlit("b");
        reveal_strlit("c");
        reveal_strlit("d");
        reveal_strlit("e");
        reveal_strlit("f");
    }
    let s = if n == 0 {
        "0"
    } else if n == 1 {
        "1"
    } else if n == 2 {
        "2"
    } else if n == 3 {
        "3"
    } else if n == 4 {
        "4"
    } else if n == 5 {
        "5"
    } else if n == 6 {
        "6"
    } else if n == 7 {
        "7"
    } else if n == 8 {
        "8"
    } else if n == 9 {
        "9"
    } else if n == 10 {
        "a"
    } else if n == 11 {
        "b"
    } else if n == 12 {
        "c"
    } else if n == 13 {
        "d"
    } else if n == 14 {
        "e"
    } else {
        "f"
    };
    assert(s@ =~= seq![hex_digit(n as nat)]);
    s
}

/// Writes `bytes` in hexadecimal with small letters.
pub fn to_hex(bytes: &Vec<u8>) -> (hex: String)
    ensures
        hex@ == hex_digits(bytes@),
{
    let mut hex = String::new();
    let mut i: usize = 0;
    assert(bytes@.take(0) =~= Seq::<u8>::empty());
    while i < bytes.len()
        invariant
            0 <= i <= bytes.len(),
            hex@ == hex_digits(bytes@.take(i as int)),
        decreases bytes.len() - i,
    {
        let byte: u8 = bytes[i];
        hex.append(hex_text(byte / 16));
        hex.append(hex_text(byte % 16));
        proof {
            let done = bytes@.take(i + 1);
            assert(done.drop_last() =~= bytes@.take(i as int));
            assert(done.last() == byte);
            assert(hex@ =~= hex_digits(done));
        }
        i = i + 1;
    }
    assert(bytes@.take(bytes.len() as int) =~= bytes@);
    hex
}

/// A fingerprint in the making.
pub struct ContentHasher {
    state: sha2::Sha256,
}

impl View for ContentHasher {
    type V = Seq<u8>;

    /// The bytes fed so far.
    closed spec fn view(&self) -> Seq<u8> {
        absorbed(self.state)
    }
}

impl ContentHasher {
    /// A hasher that was fed nothing yet.
    pub fn new() -> (hasher: ContentHasher)
        ensures
            hasher@ == Seq::<u8>::empty(),
    {
        ContentHasher { state: sha256_new() }
    }

    /// Feeds `chunk` to the hasher.
    pub fn update(&mut self, chunk: &[u8])
        ensures
            final(self)@ == old(self)@ + chunk@,
    {
        sha256_update(&mut self.state, chunk)
    }

    /// The fingerprint of the bytes fed, 64 hexadecimal digits with small
    /// letters: a function of those bytes alone, whatever the chunks were
    /// in which they came.
    pub fn finalize(self) -> (hex: String)
        ensures
            hex@ == fingerprint_of(self@),
            hex@.len() == 64,
    {
        let digest = sha256_finalize(self.state);
        proof {
            lemma_hex_digits_len(digest@);
        }
        to_hex(&digest)
    }
}

} // verus!
