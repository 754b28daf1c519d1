//! SHA-2 digests used by the measurement registers.

use sha2::Digest;
use vstd::prelude::*;

verus! {

/// The SHA-384 digest of a byte string.
pub uninterp spec fn sha384_of(data: Seq<u8>) -> Seq<u8>;

/// The SHA-256 digest of a byte string.
pub uninterp spec fn sha256_of(data: Seq<u8>) -> Seq<u8>;

/// `sha2::Sha384::digest`: the one-shot SHA-384 digest of `data`.
#[verifier::external_body]
pub(crate) fn sha384(data: &[u8]) -> (digest: [u8; 48])
    ensures
        digest@ == sha384_of(data@),
{
    sha2::Sha384::digest(data).into()
}

/// `sha2::Sha256::digest`: the one-shot SHA-256 digest of `data`.
#[verifier::external_body]
pub(crate) fn sha256(data: &[u8]) -> (digest: [u8; 32])
    ensures
        digest@ == sha256_of(data@),
{
    sha2::Sha256::digest(data).into()
}

} // verus!
