//! SHA-256.
use vstd::prelude::*;
use sha2::{Digest, Sha256};

verus! {

/// The SHA-256 digest of a byte string.
pub uninterp spec fn sha256(data: Seq<u8>) -> Seq<u8>;

/// `sha2::Sha256::digest`: the contract claims only that the 32 bytes are
/// the SHA-256 digest of `data`, a function of `data` alone.
#[verifier::external_body]
pub(crate) fn sha256_hash(data: &[u8]) -> (h: [u8; 32])
    ensures
        h@ == sha256(data@),
{
    Sha256::digest(data).into()
}

} // verus!
