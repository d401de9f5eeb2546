//! Content digesting: SHA-256 over a file's full byte content, encoded
//! as uppercase hexadecimal.  Digest equality is a string comparison,
//! so both stores must produce the digest bit-for-bit identically.

use vstd::prelude::*;

verus! {

/// Inputs longer than this (in bytes) are not digested: SHA-256 is
/// defined only for messages of fewer than 2^64 bits.
pub open spec fn fits_digest_input(len: nat) -> bool {
    len <= 0x1fff_ffff_ffff_ffff
}

/// The SHA-256 hash of a byte sequence, as the 32 hash bytes.
pub uninterp spec fn sha256_of(data: Seq<u8>) -> Seq<u8>;

/// The uppercase hexadecimal digit for a value below sixteen.
pub open spec fn hex_digit_upper(v: u8) -> char {
    if v == 0 {
        '0'
    } else if v == 1 {
        '1'
    } else if v == 2 {
        '2'
    } else if v == 3 {
        '3'
    } else if v == 4 {
        '4'
    } else if v == 5 {
        '5'
    } else if v == 6 {
        '6'
    } else if v == 7 {
        '7'
    } else if v == 8 {
        '8'
    } else if v == 9 {
        '9'
    } else if v == 10 {
        'A'
    } else if v == 11 {
        'B'
    } else if v == 12 {
        'C'
    } else if v == 13 {
        'D'
    } else if v == 14 {
        'E'
    } else {
        'F'
    }
}

/// Uppercase hex encoding of a byte sequence: two digits per byte,
/// high nibble first.
pub open spec fn spec_hex_upper(data: Seq<u8>) -> Seq<char>
    decreases data.len(),
{
    if data.len() == 0 {
        Seq::empty()
    } else {
        spec_hex_upper(data.drop_last())
            .push(hex_digit_upper(data.last() / 16))
            .push(hex_digit_upper(data.last() % 16))
    }
}

pub proof fn lemma_hex_upper_len(data: Seq<u8>)
    ensures
        spec_hex_upper(data).len() == 2 * data.len(),
    decreases data.len(),
{
    if data.len() > 0 {
        lemma_hex_upper_len(data.drop_last());
    }
}

/// The digest string recorded in a fingerprint: uppercase hex of the
/// SHA-256 hash of the content.
pub open spec fn spec_digest(content: Seq<u8>) -> Seq<char> {
    spec_hex_upper(sha256_of(content))
}

/// Relies on ring::digest::digest with ring::digest::SHA256: the 32
/// hash bytes are a function of the input bytes alone.  The length
/// bound keeps the input below SHA-256's maximum message length, the
/// one case in which ring's digest panics.
#[verifier::external_body]
fn sha256(data: &[u8]) -> (r: Vec<u8>)
    requires
        fits_digest_input(data@.len()),
    ensures
        r@ == sha256_of(data@),
        r@.len() == 32,
{
    ring::digest::digest(&ring::digest::SHA256, data).as_ref().to_vec()
}

/// Relies on data_encoding::HEXUPPER.encode: each input byte becomes
/// two digits from "0123456789ABCDEF", high nibble first.  The length
/// bound is the one below which encode is documented not to assert.
#[verifier::external_body]
fn hex_upper(data: &[u8]) -> (r: String)
    requires
        data@.len() <= usize::MAX as nat / 512,
    ensures
        r@ == spec_hex_upper(data@),
{
    data_encoding::HEXUPPER.encode(data)
}

/// The digest a store records for a regular file with the given
/// content: 64 uppercase hex characters.
pub fn content_digest(content: &[u8]) -> (r: String)
    requires
        fits_digest_input(content@.len()),
    ensures
        r@ == spec_digest(content@),
        r@.len() == 64,
{
    let hash = sha256(content);
    let digest = hex_upper(hash.as_slice());
    proof {
        lemma_hex_upper_len(hash@);
    }
    digest
}

} // verus!
