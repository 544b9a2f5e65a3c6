//! The one-way digest helper against the hasher it relies on.

use blake2::Digest;
use telemetry_store::token::blake2_str;

fn expected_hex(input: &str) -> String {
    let digest = blake2::Blake2b512::digest(input.as_bytes());
    let mut out = String::new();
    for byte in digest.as_slice() {
        out.push_str(&format!("{:02x}", byte));
    }
    out
}

#[test]
fn digest_matches_blake2b512_hex() {
    assert_eq!(blake2_str(""), expected_hex(""));
    assert_eq!(blake2_str("alice@x.com"), expected_hex("alice@x.com"));
    assert_eq!(blake2_str("pw1"), expected_hex("pw1"));
}

#[test]
fn digest_is_128_lowercase_hex_chars() {
    let d = blake2_str("anything");
    assert_eq!(d.len(), 128);
    assert!(d.chars().all(|c| c.is_ascii_hexdigit() && !c.is_ascii_uppercase()));
    assert_ne!(d, blake2_str("anything else"));
    assert_ne!(d, "anything");
}
