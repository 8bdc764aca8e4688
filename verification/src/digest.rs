//! Message digests, written as lowercase hexadecimal.
use vstd::prelude::*;
use crate::css::hex_digit;
use crate::text::push_char;
use sha2::Digest;

verus! {

/// The digest algorithms offered.
#[derive(Debug, Clone, Copy, PartialEq, Eq, Structural)]
pub enum DigestAlgorithm {
    Md5,
    Sha1,
    Sha256,
    Sha512,
    Blake2s,
    Blake2b,
}

/// MD5 of `data` (`md5::Md5`).
pub uninterp spec fn md5_digest(data: Seq<u8>) -> Seq<u8>;

/// SHA-1 of `data` (`sha1::Sha1`).
pub uninterp spec fn sha1_digest(data: Seq<u8>) -> Seq<u8>;

/// SHA-256 of `data` (`sha2::Sha256`).
pub uninterp spec fn sha256_digest(data: Seq<u8>) -> Seq<u8>;

/// SHA-512 of `data` (`sha2::Sha512`).
pub uninterp spec fn sha512_digest(data: Seq<u8>) -> Seq<u8>;

/// BLAKE2s with a 256-bit output of `data` (`blake2::Blake2s256`).
pub uninterp spec fn blake2s_digest(data: Seq<u8>) -> Seq<u8>;

/// BLAKE2b with a 512-bit output of `data` (`blake2::Blake2b512`).
pub uninterp spec fn blake2b_digest(data: Seq<u8>) -> Seq<u8>;

/// The digest that `alg` computes.
pub open spec fn digest_of(alg: DigestAlgorithm, data: Seq<u8>) -> Seq<u8> {
    match alg {
        DigestAlgorithm::Md5 => md5_digest(data),
        DigestAlgorithm::Sha1 => sha1_digest(data),
        DigestAlgorithm::Sha256 => sha256_digest(data),
        DigestAlgorithm::Sha512 => sha512_digest(data),
        DigestAlgorithm::Blake2s => blake2s_digest(data),
        DigestAlgorithm::Blake2b => blake2b_digest(data),
    }
}

/// The output length of `alg`, in bytes.
pub open spec fn digest_len(alg: DigestAlgorithm) -> nat {
    match alg {
        DigestAlgorithm::Md5 => 16,
        DigestAlgorithm::Sha1 => 20,
        DigestAlgorithm::Sha256 => 32,
        DigestAlgorithm::Sha512 => 64,
        DigestAlgorithm::Blake2s => 32,
        DigestAlgorithm::Blake2b => 64,
    }
}

/// `Digest::digest` of `md5::Md5`; its output is 16 bytes.
#[verifier::external_body]
fn md5(data: &[u8]) -> (r: Vec<u8>)
    ensures
        r@ == md5_digest(data@),
        r@.len() == 16,
{
    md5::Md5::digest(data).to_vec()
}

/// `Digest::digest` of `sha1::Sha1`; its output is 20 bytes.
#[verifier::external_body]
fn sha1(data: &[u8]) -> (r: Vec<u8>)
    ensures
        r@ == sha1_digest(data@),
        r@.len() == 20,
{
    sha1::Sha1::digest(data).to_vec()
}

/// `Digest::digest` of `sha2::Sha256`; its output is 32 bytes.
#[verifier::external_body]
fn sha256(data: &[u8]) -> (r: Vec<u8>)
    ensures
        r@ == sha256_digest(data@),
        r@.len() == 32,
{
    sha2::Sha256::digest(data).to_vec()
}

/// `Digest::digest` of `sha2::Sha512`; its output is 64 bytes.
#[verifier::external_body]
fn sha512(data: &[u8]) -> (r: Vec<u8>)
    ensures
        r@ == sha512_digest(data@),
        r@.len() == 64,
{
    sha2::Sha512::digest(data).to_vec()
}

/// `Digest::digest` of `blake2::Blake2s256`; its output is 32 bytes.
#[verifier::external_body]
fn blake2s(data: &[u8]) -> (r: Vec<u8>)
    ensures
        r@ == blake2s_digest(data@),
        r@.len() == 32,
{
    blake2::Blake2s256::digest(data).to_vec()
}

/// `Digest::digest` of `blake2::Blake2b512`; its output is 64 bytes.
#[verifier::external_body]
fn blake2b(data: &[u8]) -> (r: Vec<u8>)
    ensures
        r@ == blake2b_digest(data@),
        r@.len() == 64,
{
    blake2::Blake2b512::digest(data).to_vec()
}

/// Bytes as lowercase hexadecimal, two digits per byte (`{:02x}`).
pub open spec fn hex_lower(bytes: Seq<u8>) -> Seq<char>
    decreases bytes.len(),
{
    if bytes.len() == 0 {
        Seq::empty()
    } else {
        hex_lower(bytes.drop_last()) + seq![
            hex_digit((bytes.last() / 16) as u32),
            hex_digit((bytes.last() % 16) as u32),
        ]
    }
}

proof fn lemma_hex_lower_len(bytes: Seq<u8>)
    ensures
        hex_lower(bytes).len() == 2 * bytes.len(),
    decreases bytes.len(),
{
    if bytes.len() > 0 {
        lemma_hex_lower_len(bytes.drop_last());
    }
}

fn hex_digit_of(d: u8) -> (c: char)
    requires
        d < 16,
    ensures
        c == hex_digit(d as u32),
{
    if d < 10 {
        if d == 0 {
            '0'
        } else if d == 1 {
            '1'
        } else if d == 2 {
            '2'
        } else if d == 3 {
            '3'
        } else if d == 4 {
            '4'
        } else if d == 5 {
            '5'
        } else if d == 6 {
            '6'
        } else if d == 7 {
            '7'
        } else if d == 8 {
            '8'
        } else {
            '9'
        }
    } else if d == 10 {
        'a'
    } else if d == 11 {
        'b'
    } else if d == 12 {
        'c'
    } else if d == 13 {
        'd'
    } else if d == 14 {
        'e'
    } else {
        'f'
    }
}

/// `bytes` as lowercase hexadecimal.
pub fn to_hex(bytes: &Vec<u8>) -> (s: String)
    ensures
        s@ == hex_lower(bytes@),
        s@.len() == 2 * bytes@.len(),
{
    let mut s = String::new();
    let mut i: usize = 0;
    while i < bytes.len()
        invariant
            i <= bytes.len(),
            s@ == hex_lower(bytes@.take(i as int)),
        decreases bytes.len() - i,
    {
        assert(bytes@.take(i + 1).drop_last() == bytes@.take(i as int));
        let b = bytes[i];
        push_char(&mut s, hex_digit_of(b / 16));
        push_char(&mut s, hex_digit_of(b % 16));
        i = i + 1;
    }
    assert(bytes@.take(bytes.len() as int) == bytes@);
    proof {
        lemma_hex_lower_len(bytes@);
    }
    s
}

/// The digest of `input` under `alg`, as lowercase hexadecimal.
pub fn digest_hex(alg: DigestAlgorithm, input: &[u8]) -> (s: String)
    ensures
        s@ == hex_lower(digest_of(alg, input@)),
        s@.len() == 2 * digest_len(alg),
{
    let d = match alg {
        DigestAlgorithm::Md5 => md5(input),
        DigestAlgorithm::Sha1 => sha1(input),
        DigestAlgorithm::Sha256 => sha256(input),
        DigestAlgorithm::Sha512 => sha512(input),
        DigestAlgorithm::Blake2s => blake2s(input),
        DigestAlgorithm::Blake2b => blake2b(input),
    };
    to_hex(&d)
}

} // verus!
