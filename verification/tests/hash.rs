use lode::hash::{hash_by_format, hex, md5_hex, sha1_hex, sha256_hex, sha512_hex};

#[test]
fn md5_matches_known_vectors() {
    // RFC 1321 test vectors — proves the digest wiring is correct, not just self-consistent.
    assert_eq!(md5_hex(b""), "d41d8cd98f00b204e9800998ecf8427e");
    assert_eq!(md5_hex(b"abc"), "900150983cd24fb0d6963f7d28e17f72");
}

#[test]
fn hash_by_format_verifies_md5() {
    assert_eq!(
        hash_by_format(b"abc", "md5").as_deref(),
        Some("900150983cd24fb0d6963f7d28e17f72")
    );
}

#[test]
fn sha_digests_match_known_vectors() {
    assert_eq!(sha1_hex(b"abc"), "a9993e364706816aba3e25717850c26c9cd0d89d");
    assert_eq!(
        sha256_hex(b"abc"),
        "ba7816bf8f01cfea414140de5dae2223b00361a396177a9cb410ff61f20015ad"
    );
    assert_eq!(
        sha512_hex(b"abc"),
        "ddaf35a193617abacc417349ae20413112e6fa4e89a97ea20a9eeee64b55d39a\
         2192992a274fc1a836ba3c23a3feebbd454d4423643ce80e2a9ac94fa54ca49f"
    );
}

#[test]
fn hash_by_format_knows_four_formats() {
    assert_eq!(hash_by_format(b"abc", "sha1"), Some(sha1_hex(b"abc")));
    assert_eq!(hash_by_format(b"abc", "sha256"), Some(sha256_hex(b"abc")));
    assert_eq!(hash_by_format(b"abc", "sha512"), Some(sha512_hex(b"abc")));
    assert_eq!(hash_by_format(b"abc", "crc32"), None);
    assert_eq!(hash_by_format(b"abc", "SHA1"), None);
}

#[test]
fn hex_writes_two_lowercase_digits_for_each_byte() {
    assert_eq!(hex(&[0x00, 0x0f, 0xa5, 0xff]), "000fa5ff");
    assert_eq!(hex(&[]), "");
    assert_ne!(hex(&[0x01, 0x23]), hex(&[0x12, 0x30]));
}
