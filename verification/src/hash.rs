//! Digests of file contents, in lower-case hexadecimal.
use sha1::Sha1;
use sha2::{Digest, Sha256, Sha512};
use vstd::prelude::*;

use crate::text::same;

verus! {

/// The SHA-1 digest of `bytes`.
pub uninterp spec fn sha1_digest(bytes: Seq<u8>) -> Seq<u8>;

/// The SHA-256 digest of `bytes`.
pub uninterp spec fn sha256_digest(bytes: Seq<u8>) -> Seq<u8>;

/// The SHA-512 digest of `bytes`.
pub uninterp spec fn sha512_digest(bytes: Seq<u8>) -> Seq<u8>;

/// The MD5 digest of `bytes`.
pub uninterp spec fn md5_digest(bytes: Seq<u8>) -> Seq<u8>;

/// `sha1::Sha1::digest`: a function of the bytes alone, twenty bytes long.
#[verifier::external_body]
fn sha1_of(bytes: &[u8]) -> (r: Vec<u8>)
    ensures
        r@ == sha1_digest(bytes@),
        r@.len() == 20,
{
    Sha1::digest(bytes).to_vec()
}

/// `sha2::Sha256::digest`: a function of the bytes alone, thirty-two bytes long.
#[verifier::external_body]
fn sha256_of(bytes: &[u8]) -> (r: Vec<u8>)
    ensures
        r@ == sha256_digest(bytes@),
        r@.len() == 32,
{
    Sha256::digest(bytes).to_vec()
}

/// `sha2::Sha512::digest`: a function of the bytes alone, sixty-four bytes long.
#[verifier::external_body]
fn sha512_of(bytes: &[u8]) -> (r: Vec<u8>)
    ensures
        r@ == sha512_digest(bytes@),
        r@.len() == 64,
{
    Sha512::digest(bytes).to_vec()
}

/// `md5::compute`: a function of the bytes alone, sixteen bytes long.
#[verifier::external_body]
fn md5_of(bytes: &[u8]) -> (r: Vec<u8>)
    ensures
        r@ == md5_digest(bytes@),
        r@.len() == 16,
{
    md5::compute(bytes).0.to_vec()
}

/// The hexadecimal digit for a value below sixteen.
pub open spec fn hex_digit(v: int) -> char {
    if v < 10 {
        (48 + v) as u32 as char
    } else {
        (87 + v) as u32 as char
    }
}

/// Two lower-case hexadecimal digits per byte, the high half first.
pub open spec fn hex_of(bytes: Seq<u8>) -> Seq<char> {
    Seq::new(
        2 * bytes.len(),
        |i: int|
            hex_digit(
                if i % 2 == 0 {
                    bytes[i / 2] as int / 16
                } else {
                    bytes[i / 2] as int % 16
                },
            ),
    )
}

fn hex_char(v: u8) -> (r: char)
    requires
        v < 16,
    ensures
        r == hex_digit(v as int),
{
    if v < 10 {
        (48 + v) as char
    } else {
        (87 + v) as char
    }
}

/// The bytes in lower-case hexadecimal.
pub fn hex(bytes: &[u8]) -> (r: String)
    ensures
        r@ == hex_of(bytes@),
{
    let mut out = String::new();
    let mut i: usize = 0;
    while i < bytes.len()
        invariant
            i <= bytes@.len(),
            out@ == hex_of(bytes@.take(i as int)),
        decreases bytes.len() - i,
    {
        out.push(hex_char(bytes[i] / 16));
        out.push(hex_char(bytes[i] % 16));
        i = i + 1;
        proof {
            let now = hex_of(bytes@.take(i as int));
            assert forall|j: int| 0 <= j < now.len() implies out@[j] == #[trigger] now[j] by {
                assert(bytes@.take(i as int)[j / 2] == bytes@[j / 2]);
                if j < 2 * (i - 1) {
                    assert(bytes@.take(i - 1)[j / 2] == bytes@[j / 2]);
                }
            }
            assert(out@ =~= now);
        }
    }
    assert(bytes@.take(i as int) =~= bytes@);
    out
}

pub fn sha1_hex(bytes: &[u8]) -> (r: String)
    ensures
        r@ == hex_of(sha1_digest(bytes@)),
        r@.len() == 40,
{
    hex(sha1_of(bytes).as_slice())
}

pub fn sha256_hex(bytes: &[u8]) -> (r: String)
    ensures
        r@ == hex_of(sha256_digest(bytes@)),
        r@.len() == 64,
{
    hex(sha256_of(bytes).as_slice())
}

pub fn sha512_hex(bytes: &[u8]) -> (r: String)
    ensures
        r@ == hex_of(sha512_digest(bytes@)),
        r@.len() == 128,
{
    hex(sha512_of(bytes).as_slice())
}

/// MD5 of `bytes`. Weak by modern standards, but it's the only hash CurseForge exposes for some
/// files, so verifying against it still catches truncation/corruption, the threat a download
/// check exists to catch.
pub fn md5_hex(bytes: &[u8]) -> (r: String)
    ensures
        r@ == hex_of(md5_digest(bytes@)),
        r@.len() == 32,
{
    hex(md5_of(bytes).as_slice())
}

/// The hash of `bytes` in the named format, where the format is one that is verified.
pub open spec fn hash_in(bytes: Seq<u8>, format: Seq<char>) -> Option<Seq<char>> {
    if format == "sha1"@ {
        Some(hex_of(sha1_digest(bytes)))
    } else if format == "sha256"@ {
        Some(hex_of(sha256_digest(bytes)))
    } else if format == "sha512"@ {
        Some(hex_of(sha512_digest(bytes)))
    } else if format == "md5"@ {
        Some(hex_of(md5_digest(bytes)))
    } else {
        None
    }
}

/// Hash `bytes` with the named algorithm, or `None` if the format isn't one we verify. Used to
/// check a downloaded jar against the provider-native hash stored in the lock. `md5` is among them
/// because CurseForge locks it as the only hash for some files.
pub fn hash_by_format(bytes: &[u8], format: &str) -> (r: Option<String>)
    ensures
        r.deep_view() == hash_in(bytes@, format@),
{
    if same(format, "sha1") {
        Some(sha1_hex(bytes))
    } else if same(format, "sha256") {
        Some(sha256_hex(bytes))
    } else if same(format, "sha512") {
        Some(sha512_hex(bytes))
    } else if same(format, "md5") {
        Some(md5_hex(bytes))
    } else {
        None
    }
}

/// Hexadecimal notation loses nothing: different bytes are written differently.
pub proof fn hex_tells_bytes_apart(a: Seq<u8>, b: Seq<u8>)
    ensures
        hex_of(a) == hex_of(b) ==> a == b,
{
    if hex_of(a) == hex_of(b) {
        assert(hex_of(a).len() == hex_of(b).len());
        assert forall|i: int| 0 <= i < a.len() implies a[i] == b[i] by {
            assert(hex_of(a)[2 * i] == hex_of(b)[2 * i]);
            assert(hex_of(a)[2 * i + 1] == hex_of(b)[2 * i + 1]);
            assert((2 * i) / 2 == i && (2 * i + 1) / 2 == i);
            hex_digits_differ(a[i] as int / 16, b[i] as int / 16);
            hex_digits_differ(a[i] as int % 16, b[i] as int % 16);
        }
        assert(a =~= b);
    }
}

proof fn hex_digits_differ(v: int, w: int)
    requires
        0 <= v < 16,
        0 <= w < 16,
    ensures
        hex_digit(v) == hex_digit(w) ==> v == w,
{
}

/// Two hexadecimal digits in small letters stand for each byte: the first for its sixteens, the second for
/// the rest.
pub proof fn two_digits_stand_for_a_byte(bytes: Seq<u8>, i: int)
    requires
        0 <= i < bytes.len(),
    ensures
        hex_of(bytes).len() == 2 * bytes.len(),
        ({
            let high = hex_of(bytes)[2 * i];
            let low = hex_of(bytes)[2 * i + 1];
            &&& '0' <= high <= '9' || 'a' <= high <= 'f'
            &&& '0' <= low <= '9' || 'a' <= low <= 'f'
            &&& 16 * digit_value(high) + digit_value(low) == bytes[i]
        }),
{
    let b = bytes[i] as int;
    assert((2 * i) / 2 == i && (2 * i) % 2 == 0 && (2 * i + 1) / 2 == i && (2 * i + 1) % 2 == 1);
    let h = b / 16;
    let l = b % 16;
    assert(0 <= h < 16 && 0 <= l < 16 && 16 * h + l == b);
    assert(hex_of(bytes)[2 * i] == hex_digit(h));
    assert(hex_of(bytes)[2 * i + 1] == hex_digit(l));
}

/// What a hexadecimal digit in small letters stands for.
pub open spec fn digit_value(c: char) -> int {
    if c <= '9' {
        c as u32 - 48
    } else {
        c as u32 - 87
    }
}

} // verus!
