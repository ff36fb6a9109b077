//! Hash primitives: SHA-256 as a lower-case hex digest, and the challenge
//! that binds a commitment to a security level.

use sha2::{Digest, Sha256};
use vstd::prelude::*;
use vstd::string::*;
use vstd::utf8::encode_utf8;
use crate::text::{decimal_string, decimal_text, same_text};

verus! {

/// Number of hex characters in a digest of the hash primitive (256 bits).
pub const DIGEST_HEX_LEN: usize = 64;

/// Number of leading digest characters that make up a challenge.
pub const CHALLENGE_LEN: usize = 16;

/// The SHA-256 digest of `data`, written as lower-case hex.
pub uninterp spec fn sha256_hex(data: Seq<u8>) -> Seq<char>;

/// `c` is one of `0-9`, `a-f`.
pub open spec fn is_lower_hex_char(c: char) -> bool {
    ('0' <= c && c <= '9') || ('a' <= c && c <= 'f')
}

/// `c` is one of `0-9`, `a-f`, `A-F`.
pub open spec fn is_hex_char(c: char) -> bool {
    is_lower_hex_char(c) || ('A' <= c && c <= 'F')
}

/// `s` has the shape of a digest: exactly `DIGEST_HEX_LEN` hex digits.
pub open spec fn is_hex_digest(s: Seq<char>) -> bool {
    &&& s.len() == DIGEST_HEX_LEN
    &&& forall|i: int| 0 <= i < s.len() ==> is_hex_char(#[trigger] s[i])
}

/// `s` is a digest as the hash primitive writes it: lower case throughout.
pub open spec fn is_lower_hex_digest(s: Seq<char>) -> bool {
    &&& s.len() == DIGEST_HEX_LEN
    &&& forall|i: int| 0 <= i < s.len() ==> is_lower_hex_char(#[trigger] s[i])
}

/// The digest of a text: SHA-256 over its UTF-8 bytes.
pub open spec fn text_digest(s: Seq<char>) -> Seq<char> {
    sha256_hex(encode_utf8(s))
}

/// The `count` low bytes of `x`, least significant first.
pub open spec fn le_bytes(x: nat, count: nat) -> Seq<u8>
    decreases count,
{
    if count == 0 {
        Seq::<u8>::empty()
    } else {
        seq![(x % 256) as u8] + le_bytes(x / 256, (count - 1) as nat)
    }
}

/// The canonical byte form of an integer sequence: each value as eight
/// little-endian bytes, in order.
pub open spec fn integers_bytes(values: Seq<u64>) -> Seq<u8>
    decreases values.len(),
{
    if values.len() == 0 {
        Seq::<u8>::empty()
    } else {
        integers_bytes(values.drop_last()) + le_bytes(values.last() as nat, 8)
    }
}

/// The challenge that belongs to a commitment at a security level: the
/// first `CHALLENGE_LEN` characters of the digest of the commitment
/// followed by the level in decimal.
pub open spec fn challenge_for(commitment: Seq<char>, security_bits: u32) -> Seq<char> {
    text_digest(commitment + decimal_text(security_bits as nat)).subrange(0, CHALLENGE_LEN as int)
}

/// Hashes `data` with `sha2::Sha256` (`new`, `update`, `finalize`) and
/// formats the 32-byte output with `{:x}`. Trusted: the result is the
/// function `sha256_hex` of the bytes, and it is 64 characters long, each
/// one of `0-9a-f`, as the hex formatter of the output array writes them.
#[verifier::external_body]
pub fn hash_bytes(data: &[u8]) -> (r: String)
    ensures
        r@ == sha256_hex(data@),
        is_lower_hex_digest(r@),
{
    let mut hasher = Sha256::new();
    hasher.update(data);
    format!("{:x}", hasher.finalize())
}

/// Hashes the UTF-8 bytes of a text.
pub fn hash_string(data: &str) -> (r: String)
    ensures
        r@ == text_digest(data@),
        is_lower_hex_digest(r@),
{
    hash_bytes(data.as_bytes())
}

/// Hashes a sequence of integers in its canonical byte form.
pub fn hash_integers(values: &[u64]) -> (r: String)
    ensures
        r@ == sha256_hex(integers_bytes(values@)),
        is_lower_hex_digest(r@),
{
    let mut data: Vec<u8> = Vec::new();
    let mut i: usize = 0;
    while i < values.len()
        invariant
            0 <= i <= values.len(),
            data@ == integers_bytes(values@.take(i as int)),
        decreases values.len() - i,
    {
        let ghost base = data@;
        let v: u64 = values[i];
        let mut x: u64 = v;
        let mut k: usize = 0;
        while k < 8
            invariant
                0 <= k <= 8,
                data@ + le_bytes(x as nat, (8 - k) as nat) == base + le_bytes(v as nat, 8),
            decreases 8 - k,
        {
            let ghost before = data@;
            data.push((x % 256) as u8);
            proof {
                let rest = le_bytes((x / 256) as nat, (8 - k - 1) as nat);
                assert(le_bytes(x as nat, (8 - k) as nat) == seq![(x % 256) as u8] + rest);
                assert(before.push((x % 256) as u8) + rest == before + (seq![(x % 256) as u8]
                    + rest));
            }
            x = x / 256;
            k = k + 1;
        }
        proof {
            assert(data@ + le_bytes(x as nat, 0) == data@);
            let next = values@.take(i + 1);
            assert(next.drop_last() == values@.take(i as int));
            assert(next.last() == v);
        }
        i = i + 1;
    }
    proof {
        assert(values@.take(values.len() as int) == values@);
    }
    hash_bytes(data.as_slice())
}

/// The challenge part of a digest: its first `CHALLENGE_LEN` characters.
pub fn challenge_prefix(digest: &str) -> (r: String)
    requires
        digest@.len() >= CHALLENGE_LEN,
    ensures
        r@ == digest@.subrange(0, CHALLENGE_LEN as int),
{
    digest.substring_char(0, CHALLENGE_LEN).to_owned()
}

/// Derives the challenge for a commitment and a security level. The result
/// depends on these two values alone.
pub fn generate_challenge(commitment: &str, security_bits: u32) -> (r: String)
    ensures
        r@ == challenge_for(commitment@, security_bits),
        r@.len() == CHALLENGE_LEN,
        forall|i: int| 0 <= i < r@.len() ==> is_lower_hex_char(#[trigger] r@[i]),
{
    let mut challenge_input = String::from_str(commitment);
    let level = decimal_string(security_bits as u64);
    challenge_input.append(level.as_str());
    let hash = hash_string(challenge_input.as_str());
    challenge_prefix(hash.as_str())
}

/// Tells whether `provided_challenge` is the challenge that belongs to the
/// commitment and the security level.
pub fn verify_challenge(commitment: &str, security_bits: u32, provided_challenge: &str) -> (ok:
    bool)
    ensures
        ok == (provided_challenge@ == challenge_for(commitment@, security_bits)),
{
    let expected_challenge = generate_challenge(commitment, security_bits);
    same_text(expected_challenge.as_str(), provided_challenge)
}

fn is_hex(c: char) -> (r: bool)
    ensures
        r == is_hex_char(c),
{
    ('0' <= c && c <= '9') || ('a' <= c && c <= 'f') || ('A' <= c && c <= 'F')
}

/// Tells whether `s` has the shape of a digest. This looks at the form
/// alone: nothing is hashed.
pub fn is_digest(s: &str) -> (r: bool)
    ensures
        r == is_hex_digest(s@),
{
    let n = s.unicode_len();
    if n != DIGEST_HEX_LEN {
        return false;
    }
    let mut i: usize = 0;
    while i < n
        invariant
            0 <= i <= n,
            n == s@.len(),
            forall|j: int| 0 <= j < i ==> is_hex_char(#[trigger] s@[j]),
        decreases n - i,
    {
        if !is_hex(s.get_char(i)) {
            return false;
        }
        i = i + 1;
    }
    true
}

} // verus!
