//! Checking archive contents against a record's checksum.
use vstd::prelude::*;
use vstd::utf8::encode_utf8;

verus! {

/// The SHA-256 digest of `data`.
pub uninterp spec fn sha256_of(data: Seq<u8>) -> Seq<u8>;

/// Value of one hex digit, in either case.
pub open spec fn hex_digit(c: u8) -> Option<u8> {
    if 48 <= c <= 57 {
        Some((c - 48) as u8)
    } else if 97 <= c <= 102 {
        Some((c - 87) as u8)
    } else if 65 <= c <= 70 {
        Some((c - 55) as u8)
    } else {
        None
    }
}

/// The bytes that a string of hex digit pairs spells, high digit first.
pub open spec fn hex_decoded(s: Seq<u8>) -> Option<Seq<u8>>
    decreases s.len(),
{
    if s.len() % 2 != 0 {
        None
    } else if s.len() == 0 {
        Some(seq![])
    } else {
        match (hex_digit(s[0]), hex_digit(s[1]), hex_decoded(s.skip(2))) {
            (Some(h), Some(l), Some(rest)) => Some(seq![(h * 16 + l) as u8] + rest),
            _ => None,
        }
    }
}

/// A digest agrees with a checksum written in hex.
pub open spec fn digest_agrees(digest: Seq<u8>, cksum: Seq<char>) -> bool {
    hex_decoded(encode_utf8(cksum)) == Some(digest)
}

/// Contents agree with a checksum: their SHA-256 digest is the one it spells.
pub open spec fn checksum_accepts(data: Seq<u8>, cksum: Seq<char>) -> bool {
    digest_agrees(sha256_of(data), cksum)
}

/// Relies on `sha2::Sha256::digest` (through `sha2::Digest`): the 32-byte
/// SHA-256 digest of the data.
#[verifier::external_body]
fn sha256(data: &[u8]) -> (r: Vec<u8>)
    ensures
        r@ == sha256_of(data@),
        r@.len() == 32,
{
    <sha2::Sha256 as sha2::Digest>::digest(data).to_vec()
}

/// Relies on `hex::decode`: pairs of hex digits of either case become bytes;
/// an odd length or any other character is an error.
#[verifier::external_body]
fn hex_decode(text: &str) -> (r: Option<Vec<u8>>)
    ensures
        match r {
            Some(b) => hex_decoded(encode_utf8(text@)) == Some(b@),
            None => hex_decoded(encode_utf8(text@)) is None,
        },
{
    hex::decode(text).ok()
}

/// Whether two byte strings are equal.
fn same_bytes(a: &Vec<u8>, b: &Vec<u8>) -> (r: bool)
    ensures
        r == (a@ == b@),
{
    if a.len() != b.len() {
        return false;
    }
    let mut i: usize = 0;
    while i < a.len()
        invariant
            a@.len() == b@.len(),
            i <= a@.len(),
            a@.subrange(0, i as int) == b@.subrange(0, i as int),
        decreases a@.len() - i,
    {
        if a[i] != b[i] {
            assert(a@[i as int] != b@[i as int]);
            return false;
        }
        assert(a@.subrange(0, i + 1) =~= a@.subrange(0, i as int).push(a@[i as int]));
        assert(b@.subrange(0, i + 1) =~= b@.subrange(0, i as int).push(b@[i as int]));
        i = i + 1;
    }
    assert(a@ =~= a@.subrange(0, i as int));
    assert(b@ =~= b@.subrange(0, i as int));
    true
}

/// Whether a digest is the one that a hex checksum spells.
pub fn digest_matches(digest: &Vec<u8>, cksum: &str) -> (r: bool)
    ensures
        r == digest_agrees(digest@, cksum@),
{
    match hex_decode(cksum) {
        Some(expected) => same_bytes(&expected, digest),
        None => false,
    }
}

/// Whether archive contents agree with a checksum written in hex.
pub fn checksum_matches(data: &[u8], cksum: &str) -> (r: bool)
    ensures
        r == checksum_accepts(data@, cksum@),
{
    let digest = sha256(data);
    digest_matches(&digest, cksum)
}

} // verus!
