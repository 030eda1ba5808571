//! SHA-256 as Bitcoin uses it: the digest, the double digest, and the parent
//! of two nodes of a hash tree.

use vstd::prelude::*;

verus! {

/// The SHA-256 digest of a byte string.
pub uninterp spec fn sha256_digest(data: Seq<u8>) -> Seq<u8>;

/// Calls `bitcoin::hashes::sha256::Hash::hash` and takes the digest out with
/// `to_byte_array`. Trusted: the bytes returned are `sha256_digest` of the
/// input bytes. That a digest has 32 bytes is carried by the array type.
#[verifier::external_body]
fn sha256(data: &[u8]) -> (digest: [u8; 32])
    ensures
        digest@ == sha256_digest(data@),
{
    let h: bitcoin::hashes::sha256::Hash = bitcoin::hashes::Hash::hash(data);
    bitcoin::hashes::Hash::to_byte_array(h)
}

/// SHA-256 applied to the SHA-256 digest of `data`.
pub open spec fn double_sha256_spec(data: Seq<u8>) -> Seq<u8> {
    sha256_digest(sha256_digest(data))
}

/// The parent of two tree nodes: the double SHA-256 of `left` followed by
/// `right`.
pub open spec fn parent_hash_spec(left: Seq<u8>, right: Seq<u8>) -> Seq<u8> {
    double_sha256_spec(left + right)
}

/// The double SHA-256 of a byte string.
pub fn double_sha256(data: &[u8]) -> (digest: [u8; 32])
    ensures
        digest@ == double_sha256_spec(data@),
{
    let first = sha256(data);
    sha256(first.as_slice())
}

/// Whether two hashes hold the same bytes.
pub fn hash_eq(a: &[u8; 32], b: &[u8; 32]) -> (same: bool)
    ensures
        same == (a@ == b@),
{
    let mut i: usize = 0;
    while i < 32
        invariant
            i <= 32,
            forall|k: int| 0 <= k < i ==> a@[k] == b@[k],
        decreases 32 - i,
    {
        if a[i] != b[i] {
            return false;
        }
        i += 1;
    }
    assert(a@ =~= b@);
    true
}

} // verus!
