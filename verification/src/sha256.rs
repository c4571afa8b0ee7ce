use sha2::{Digest, Sha256};
use vstd::prelude::*;

verus! {

/// The SHA-256 digest of a byte string.
pub uninterp spec fn spec_sha256(data: Seq<u8>) -> [u8; 32];

/// Calls `sha2::Sha256::digest`. Claimed: the 32 bytes returned are the SHA-256 digest of
/// `data`, which depends on `data` alone. Nothing is claimed of the digest's value.
#[verifier::external_body]
pub(crate) fn sha256(data: &[u8]) -> (h: [u8; 32])
    ensures
        h == spec_sha256(data@),
{
    Sha256::digest(data).into()
}

} // verus!
