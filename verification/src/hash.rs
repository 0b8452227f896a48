//! Digests of artifacts: BLAKE3 for speed, SHA-256 for what the index
//! announces. A digest is written as lowercase hexadecimal text.

use crate::text::same_text;
use vstd::prelude::*;

verus! {

/// The BLAKE3 digest of `data` as 64 hexadecimal digits.
pub uninterp spec fn blake3_hex(data: Seq<u8>) -> Seq<char>;

/// The SHA-256 digest of `data` as 64 hexadecimal digits.
pub uninterp spec fn sha256_hex(data: Seq<u8>) -> Seq<char>;

/// `blake3::hash` and `Hash::to_hex`: the digest's 32 bytes, each as two
/// lowercase hexadecimal digits.
#[verifier::external_body]
fn blake3_digest(data: &[u8]) -> (hex: String)
    ensures
        hex@ == blake3_hex(data@),
        hex@.len() == 64,
{
    blake3::hash(data).to_hex().to_string()
}

/// `Sha256::digest`, formatted as lowercase hexadecimal: the digest's 32
/// bytes, each as two digits.
#[verifier::external_body]
fn sha256_digest(data: &[u8]) -> (hex: String)
    ensures
        hex@ == sha256_hex(data@),
        hex@.len() == 64,
{
    format!("{:x}", <sha2::Sha256 as sha2::Digest>::digest(data))
}

/// The BLAKE3 digest of `data`.
pub fn compute_hash(data: &[u8]) -> (hex: String)
    ensures
        hex@ == blake3_hex(data@),
        hex@.len() == 64,
{
    blake3_digest(data)
}

/// The SHA-256 digest of `data`.
pub fn compute_sha256(data: &[u8]) -> (hex: String)
    ensures
        hex@ == sha256_hex(data@),
        hex@.len() == 64,
{
    sha256_digest(data)
}

/// Whether `data` has the BLAKE3 digest `expected_hash`.
pub fn verify_package_hash(data: &[u8], expected_hash: &str) -> (matches: bool)
    ensures
        matches == (blake3_hex(data@) == expected_hash@),
{
    let computed = blake3_digest(data);
    same_text(computed.as_str(), expected_hash)
}

/// Whether `data` has the SHA-256 digest `expected_hash`.
pub fn verify_sha256(data: &[u8], expected_hash: &str) -> (matches: bool)
    ensures
        matches == (sha256_hex(data@) == expected_hash@),
{
    let computed = sha256_digest(data);
    same_text(computed.as_str(), expected_hash)
}

/// The BLAKE3 digests of several files, in their order.
pub fn compute_hashes_parallel(files: &Vec<Vec<u8>>) -> (digests: Vec<String>)
    ensures
        digests@.len() == files@.len(),
        forall|i: int| 0 <= i < files@.len() ==> (#[trigger] digests@[i])@ == blake3_hex(files@[i]@),
{
    let mut digests: Vec<String> = Vec::new();
    let mut i: usize = 0;
    while i < files.len()
        invariant
            i <= files.len(),
            digests@.len() == i,
            forall|j: int| 0 <= j < i ==> (#[trigger] digests@[j])@ == blake3_hex(files@[j]@),
        decreases files.len() - i,
    {
        digests.push(blake3_digest(files[i].as_slice()));
        i += 1;
    }
    digests
}

} // verus!
