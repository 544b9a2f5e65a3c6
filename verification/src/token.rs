//! One-way digests: password hashes and deterministic session tokens.
//!
//! A login token is the lowercase hexadecimal form of the BLAKE2b-512
//! digest of the user's mail address, so re-authenticating the same
//! account always yields the same token value.

use blake2::Digest;
use vstd::prelude::*;

verus! {

/// The BLAKE2b-512 digest of a string's characters. The digest is a pure
/// function of its input; only the hasher computes it, so it stays
/// uninterpreted here.
pub uninterp spec fn blake2b_bytes(s: Seq<char>) -> Seq<u8>;

/// Relies on blake2's `Blake2b512`: a 64-byte digest determined by the
/// input bytes alone.
#[verifier::external_body]
fn blake2b_digest(s: &str) -> (r: Vec<u8>)
    ensures
        r@ == blake2b_bytes(s@),
        r@.len() == 64,
{
    blake2::Blake2b512::digest(s.as_bytes()).to_vec()
}

/// Relies on std's `String::push`: appends the character to the string.
pub assume_specification[ String::push ](s: &mut String, ch: char)
    ensures
        final(s)@ == old(s)@.push(ch),
;

/// The lowercase hexadecimal digit for a value below 16.
pub open spec fn hex_digit(d: int) -> char {
    if d == 0 {
        '0'
    } else if d == 1 {
        '1'
    } else if d == 2 {
        '2'
    } else if d == 3 {
        '3'
    } else if d == 4 {
        '4'
    } else if d == 5 {
        '5'
    } else if d == 6 {
        '6'
    } else if d == 7 {
        '7'
    } else if d == 8 {
        '8'
    } else if d == 9 {
        '9'
    } else if d == 10 {
        'a'
    } else if d == 11 {
        'b'
    } else if d == 12 {
        'c'
    } else if d == 13 {
        'd'
    } else if d == 14 {
        'e'
    } else {
        'f'
    }
}

/// The lowercase hexadecimal rendering of a byte sequence: two digits per
/// byte, high digit first.
pub open spec fn hex_of(bytes: Seq<u8>) -> Seq<char>
    decreases bytes.len(),
{
    if bytes.len() == 0 {
        Seq::<char>::empty()
    } else {
        hex_of(bytes.drop_last()).push(hex_digit(bytes.last() as int / 16)).push(
            hex_digit(bytes.last() as int % 16),
        )
    }
}

fn hex_digit_char(d: u8) -> (c: char)
    requires
        d < 16,
    ensures
        c == hex_digit(d as int),
{
    match d {
        0 => '0',
        1 => '1',
        2 => '2',
        3 => '3',
        4 => '4',
        5 => '5',
        6 => '6',
        7 => '7',
        8 => '8',
        9 => '9',
        10 => 'a',
        11 => 'b',
        12 => 'c',
        13 => 'd',
        14 => 'e',
        _ => 'f',
    }
}

/// Renders a byte sequence in lowercase hexadecimal.
pub fn hex_string(bytes: &Vec<u8>) -> (r: String)
    ensures
        r@ == hex_of(bytes@),
{
    let mut r = String::new();
    let mut i: usize = 0;
    while i < bytes.len()
        invariant
            i <= bytes.len(),
            r@ == hex_of(bytes@.subrange(0, i as int)),
        decreases bytes.len() - i,
    {
        let b = bytes[i];
        r.push(hex_digit_char(b / 16));
        r.push(hex_digit_char(b % 16));
        proof {
            let pre = bytes@.subrange(0, i as int);
            let cur = bytes@.subrange(0, i + 1 as int);
            assert(cur.drop_last() =~= pre);
            assert(cur.last() == bytes@[i as int]);
        }
        i += 1;
    }
    proof {
        assert(bytes@.subrange(0, bytes@.len() as int) =~= bytes@);
    }
    r
}

/// The lowercase hexadecimal form of the BLAKE2b-512 digest of a string.
pub open spec fn blake2_hex(s: Seq<char>) -> Seq<char> {
    hex_of(blake2b_bytes(s))
}

/// The session token issued for a mail address.
pub open spec fn token_of(mail: Seq<char>) -> Seq<char> {
    blake2_hex(mail)
}

/// Hashes a string with BLAKE2b-512 and renders the digest in lowercase
/// hexadecimal. Used both for stored password digests and for session
/// tokens.
pub fn blake2_str(s: &str) -> (r: String)
    ensures
        r@ == blake2_hex(s@),
{
    let bytes = blake2b_digest(s);
    hex_string(&bytes)
}

/// Issuing a token is deterministic: two issuances for the same mail
/// address produce the same token value.
pub proof fn lemma_token_deterministic(t1: Seq<char>, t2: Seq<char>, mail: Seq<char>)
    requires
        t1 == token_of(mail),
        t2 == token_of(mail),
    ensures
        t1 == t2,
{
}

} // verus!
