//! SHA-256 digests and their lower-case hexadecimal rendering.

use vstd::prelude::*;
use crypto::digest::Digest;

verus! {

/// The SHA-256 digest of `data`, as `crypto::sha2::Sha256` computes it.
pub uninterp spec fn sha256(data: Seq<u8>) -> Seq<u8>;

/// Calls `crypto::sha2::Sha256` (`new`, `input`, `result`): the result is the
/// digest of `data`, named `sha256`, and is 32 bytes long (`output_bits` is 256).
#[verifier::external_body]
fn sha256_digest(data: &[u8]) -> (digest: Vec<u8>)
    ensures
        digest@ == sha256(data@),
        digest@.len() == 32,
{
    let mut hasher = crypto::sha2::Sha256::new();
    hasher.input(data);
    let mut out = vec![0u8; 32];
    hasher.result(&mut out);
    out
}

/// The SHA-256 digest of `data`.
pub fn digest_bytes(data: &[u8]) -> (digest: Vec<u8>)
    ensures
        digest@ == sha256(data@),
        digest@.len() == 32,
{
    sha256_digest(data)
}

/// The digest of an inner node of the transactions' Merkle tree: the SHA-256
/// digest of the left child's bytes followed by the right child's.
pub fn merge_digests(left: &[u8], right: &[u8]) -> (digest: Vec<u8>)
    ensures
        digest@ == sha256(left@ + right@),
        digest@.len() == 32,
{
    let mut data: Vec<u8> = Vec::new();
    let mut i: usize = 0;
    while i < left.len()
        invariant
            i <= left@.len(),
            data@ == left@.subrange(0, i as int),
        decreases left@.len() - i,
    {
        data.push(left[i]);
        i = i + 1;
    }
    let mut j: usize = 0;
    while j < right.len()
        invariant
            j <= right@.len(),
            data@ == left@ + right@.subrange(0, j as int),
        decreases right@.len() - j,
    {
        data.push(right[j]);
        j = j + 1;
    }
    assert(right@.subrange(0, right@.len() as int) == right@);
    sha256_digest(data.as_slice())
}

} // verus!
