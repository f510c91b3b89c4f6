//! Locator derivation: a long URL is hashed with SHA-256, the digest is
//! written as lowercase hexadecimal, and a fixed-length prefix of that text
//! is the candidate locator.

use rustc_serialize::hex::ToHex;
use sha2::Digest;
use vstd::prelude::*;
use vstd::utf8::encode_utf8;
use vstd::string::StrSliceExecFns;

verus! {

/// Number of hexadecimal characters kept from the digest.
pub const LOCATOR_LEN: usize = 7;

/// The SHA-256 digest of a byte sequence.
pub uninterp spec fn sha256_of(bytes: Seq<u8>) -> Seq<u8>;

/// The lowercase hexadecimal digit for a value below sixteen.
pub open spec fn hex_digit(n: int) -> char {
    seq!['0', '1', '2', '3', '4', '5', '6', '7', '8', '9', 'a', 'b', 'c', 'd', 'e', 'f'][n]
}

/// Whether a character is a lowercase hexadecimal digit.
pub open spec fn is_hex_digit(c: char) -> bool {
    ('0' <= c && c <= '9') || ('a' <= c && c <= 'f')
}

/// Two hexadecimal digits per byte, high nibble first.
pub open spec fn hex_of(bytes: Seq<u8>) -> Seq<char> {
    Seq::new(
        2 * bytes.len(),
        |i: int|
            if i % 2 == 0 {
                hex_digit(bytes[i / 2] as int / 16)
            } else {
                hex_digit(bytes[i / 2] as int % 16)
            },
    )
}

/// The first `LOCATOR_LEN` hexadecimal characters of a digest (all of them
/// when the digest is shorter).
pub open spec fn locator_of_digest(digest: Seq<u8>) -> Seq<char> {
    let h = hex_of(digest);
    if h.len() <= LOCATOR_LEN {
        h
    } else {
        h.take(LOCATOR_LEN as int)
    }
}

/// The candidate locator of a long URL: the digest is taken over the URL's
/// UTF-8 bytes.
pub open spec fn candidate_locator(long_url: Seq<char>) -> Seq<char> {
    locator_of_digest(sha256_of(encode_utf8(long_url)))
}

/// Relies on `sha2::Sha256::digest`: the 32-byte SHA-256 digest of the input.
#[verifier::external_body]
fn sha256(bytes: &[u8]) -> (r: Vec<u8>)
    ensures
        r@ == sha256_of(bytes@),
        r@.len() == 32,
{
    sha2::Sha256::digest(bytes).to_vec()
}

/// Relies on `rustc_serialize::hex::ToHex::to_hex` for byte slices: each
/// byte becomes two lowercase hexadecimal digits, high nibble first.
#[verifier::external_body]
fn to_hex(bytes: &[u8]) -> (r: String)
    ensures
        r@ == hex_of(bytes@),
{
    bytes.to_hex()
}

proof fn lemma_hex_digits(bytes: Seq<u8>)
    ensures
        forall|i: int| 0 <= i < hex_of(bytes).len() ==> is_hex_digit(#[trigger] hex_of(bytes)[i]),
{
    assert forall|i: int| 0 <= i < hex_of(bytes).len() implies is_hex_digit(
        #[trigger] hex_of(bytes)[i],
    ) by {
        let b = bytes[i / 2] as int;
        assert(0 <= b / 16 < 16);
        assert(0 <= b % 16 < 16);
    }
}

/// The locator for an already computed digest.
pub fn locator_from_digest(digest: &[u8]) -> (r: String)
    ensures
        r@ == locator_of_digest(digest@),
{
    let hex = to_hex(digest);
    let n = hex.as_str().unicode_len();
    let end = if n <= LOCATOR_LEN {
        n
    } else {
        LOCATOR_LEN
    };
    let prefix = hex.as_str().substring_char(0, end);
    let r = prefix.to_owned();
    assert(r@ =~= locator_of_digest(digest@));
    r
}

/// Derives the candidate locator of a long URL. The result depends on the
/// URL alone: it is seven lowercase hexadecimal digits.
pub fn derive_locator(long_url: &str) -> (r: String)
    ensures
        r@ == candidate_locator(long_url@),
        r@.len() == LOCATOR_LEN,
        forall|i: int| 0 <= i < r@.len() ==> is_hex_digit(#[trigger] r@[i]),
{
    let digest = sha256(long_url.as_bytes());
    let r = locator_from_digest(digest.as_slice());
    proof {
        lemma_hex_digits(digest@);
    }
    r
}

} // verus!
