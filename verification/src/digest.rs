//! The digest adapter: three digest algorithms behind a single
//! `hash_string(algorithm, text)` call returning a lowercase hex string, and
//! a `detect_algo` classifier that infers the algorithm from the digest
//! length (32, 40 or 64 hex characters).

use crate::text::first_char_rest;
use sha2::Digest;
use vstd::prelude::*;

verus! {

/// The digest algorithms the cracker understands.
#[derive(Clone, Copy, PartialEq, Eq, Structural, Debug)]
pub enum Algo {
    Md5,
    Sha1,
    Sha256,
}

/// The 16-byte MD5 digest of a string's bytes; a function of the input alone.
pub uninterp spec fn md5_of(s: Seq<char>) -> Seq<u8>;

/// The 20-byte SHA-1 digest of a string's bytes; a function of the input alone.
pub uninterp spec fn sha1_of(s: Seq<char>) -> Seq<u8>;

/// The 32-byte SHA-256 digest of a string's bytes; a function of the input alone.
pub uninterp spec fn sha256_of(s: Seq<char>) -> Seq<u8>;

/// Relies on `md5::Md5::digest` (the `md-5` crate): the 16-byte MD5 digest,
/// a function of the input bytes alone.
#[verifier::external_body]
fn md5_digest(input: &str) -> (r: Vec<u8>)
    ensures
        r@ == md5_of(input@),
        r@.len() == 16,
{
    md5::Md5::digest(input.as_bytes()).to_vec()
}

/// Relies on `sha1::Sha1::digest`: the 20-byte SHA-1 digest, a function of
/// the input bytes alone.
#[verifier::external_body]
fn sha1_digest(input: &str) -> (r: Vec<u8>)
    ensures
        r@ == sha1_of(input@),
        r@.len() == 20,
{
    sha1::Sha1::digest(input.as_bytes()).to_vec()
}

/// Relies on `sha2::Sha256::digest`: the 32-byte SHA-256 digest, a function
/// of the input bytes alone.
#[verifier::external_body]
fn sha256_digest(input: &str) -> (r: Vec<u8>)
    ensures
        r@ == sha256_of(input@),
        r@.len() == 32,
{
    sha2::Sha256::digest(input.as_bytes()).to_vec()
}

/// The character for one hex nibble, lowercase.
pub open spec fn hex_digit(v: int) -> char {
    if v == 0 {
        '0'
    } else if v == 1 {
        '1'
    } else if v == 2 {
        '2'
    } else if v == 3 {
        '3'
    } else if v == 4 {
        '4'
    } else if v == 5 {
        '5'
    } else if v == 6 {
        '6'
    } else if v == 7 {
        '7'
    } else if v == 8 {
        '8'
    } else if v == 9 {
        '9'
    } else if v == 10 {
        'a'
    } else if v == 11 {
        'b'
    } else if v == 12 {
        'c'
    } else if v == 13 {
        'd'
    } else if v == 14 {
        'e'
    } else {
        'f'
    }
}

/// Lowercase hex encoding: two digits per byte, high nibble first.
pub open spec fn hex_of(bytes: Seq<u8>) -> Seq<char> {
    Seq::new(
        bytes.len() * 2,
        |i: int|
            if i % 2 == 0 {
                hex_digit(bytes[i / 2] as int / 16)
            } else {
                hex_digit(bytes[i / 2] as int % 16)
            },
    )
}

/// Relies on `hex::encode`: lowercase hex, two digits per byte, high nibble
/// first.
#[verifier::external_body]
fn to_hex(bytes: &Vec<u8>) -> (r: String)
    ensures
        r@ == hex_of(bytes@),
{
    hex::encode(bytes)
}

/// The hex digest string a given algorithm assigns to a given input.
pub open spec fn hash_spec(algo: Algo, s: Seq<char>) -> Seq<char> {
    match algo {
        Algo::Md5 => hex_of(md5_of(s)),
        Algo::Sha1 => hex_of(sha1_of(s)),
        Algo::Sha256 => hex_of(sha256_of(s)),
    }
}

/// How many hex characters a digest of the given algorithm has.
pub open spec fn digest_hex_len(algo: Algo) -> nat {
    match algo {
        Algo::Md5 => 32,
        Algo::Sha1 => 40,
        Algo::Sha256 => 64,
    }
}

/// Hash a string under the chosen algorithm; the result is the lowercase hex
/// digest, a function of the algorithm and the input alone, so two calls on
/// equal inputs return equal strings.
pub fn hash_string(algo: Algo, input: &str) -> (r: String)
    ensures
        r@ == hash_spec(algo, input@),
        r@.len() == digest_hex_len(algo),
{
    match algo {
        Algo::Md5 => {
            let d = md5_digest(input);
            to_hex(&d)
        },
        Algo::Sha1 => {
            let d = sha1_digest(input);
            to_hex(&d)
        },
        Algo::Sha256 => {
            let d = sha256_digest(input);
            to_hex(&d)
        },
    }
}

/// Which algorithm a digest string of the given length belongs to: 32, 40
/// and 64 characters classify; every other length is a classification
/// failure.
pub open spec fn classify(s: Seq<char>) -> Option<Algo> {
    if s.len() == 32 {
        Some(Algo::Md5)
    } else if s.len() == 40 {
        Some(Algo::Sha1)
    } else if s.len() == 64 {
        Some(Algo::Sha256)
    } else {
        None
    }
}

/// The algorithm a classifiable digest string belongs to.
pub open spec fn classified(s: Seq<char>) -> Algo {
    if s.len() == 32 {
        Algo::Md5
    } else if s.len() == 40 {
        Algo::Sha1
    } else {
        Algo::Sha256
    }
}

/// Infer the digest algorithm from the length of a digest string, counting
/// characters; any length other than 32, 40 or 64 reports a classification
/// failure as `None`.
pub fn detect_algo(hash: &str) -> (r: Option<Algo>)
    ensures
        r == classify(hash@),
{
    let mut rest: &str = hash;
    let mut n: usize = 0;
    while n < 65
        invariant
            n <= 65,
            hash@.len() == n + rest@.len(),
        decreases 65 - n,
    {
        match first_char_rest(rest) {
            None => {
                return if n == 32 {
                    Some(Algo::Md5)
                } else if n == 40 {
                    Some(Algo::Sha1)
                } else if n == 64 {
                    Some(Algo::Sha256)
                } else {
                    None
                };
            },
            Some(p) => {
                rest = p.1;
                n = n + 1;
            },
        }
    }
    None
}

/// Hashing is deterministic: the digest is a function of the algorithm and
/// the input alone, so equal inputs always carry equal digests.
pub proof fn lemma_hash_deterministic(algo: Algo, s1: Seq<char>, s2: Seq<char>)
    requires
        s1 == s2,
    ensures
        hash_spec(algo, s1) == hash_spec(algo, s2),
{
}

} // verus!
