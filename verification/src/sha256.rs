use crate::hash::{Bytes, Digest, HashScheme};
use ark_crypto_primitives::crh::sha256::Sha256;
use ark_crypto_primitives::crh::{CRHScheme, TwoToOneCRHScheme};
use vstd::prelude::*;

verus! {

/// The SHA-256 digest of a byte sequence.
pub uninterp spec fn sha256(input: Seq<u8>) -> Seq<u8>;

/// `CRHScheme::evaluate` of `Sha256`: the SHA-256 digest of the input.
#[verifier::external_body]
fn sha256_of(input: &[u8]) -> (digest: Vec<u8>)
    ensures
        digest@ == sha256(input@),
{
    <Sha256 as CRHScheme>::evaluate(&(), input).unwrap()
}

/// `TwoToOneCRHScheme::evaluate` of `Sha256`: the SHA-256 digest of the left input
/// followed by the right input.
#[verifier::external_body]
fn sha256_of_pair(left: &[u8], right: &[u8]) -> (digest: Vec<u8>)
    ensures
        digest@ == sha256(left@ + right@),
{
    <Sha256 as TwoToOneCRHScheme>::evaluate(&(), left, right).unwrap()
}

/// The hash scheme that uses SHA-256 in both roles: a leaf is the digest of its
/// record, an inner node the digest of its two children's digests in a row. It
/// has no parameters and takes records of any length.
#[derive(Clone, Copy, Debug)]
pub struct Sha256Scheme;

impl HashScheme for Sha256Scheme {
    open spec fn leaf_digest(&self, record: Bytes) -> Option<Bytes> {
        Some(sha256(record))
    }

    open spec fn node_digest(&self, left: Bytes, right: Bytes) -> Bytes {
        sha256(left + right)
    }

    fn hash_leaf(&self, record: &[u8]) -> (digest: Option<Digest>) {
        Some(Digest::new(sha256_of(record)))
    }

    fn compress(&self, left: &Digest, right: &Digest) -> (digest: Digest) {
        Digest::new(sha256_of_pair(left.bytes.as_slice(), right.bytes.as_slice()))
    }

    fn duplicate(&self) -> (copy: Self) {
        Sha256Scheme
    }
}

} // verus!
