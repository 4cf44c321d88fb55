//! Curve25519 public keys: Ed25519 for signing, X25519 for key agreement.
use vstd::prelude::*;

verus! {

/// The Ed25519 public key of a 32-byte secret key (RFC 8032).
pub uninterp spec fn ed25519_public(secret: Seq<u8>) -> Seq<u8>;

/// The X25519 public key of a 32-byte private scalar: the clamped scalar
/// times the base point (RFC 7748).
pub uninterp spec fn x25519_public(private: Seq<u8>) -> Seq<u8>;

/// `ed25519_dalek::SigningKey::from_bytes(..).verifying_key().to_bytes()`:
/// the contract claims only that the result is the Ed25519 public key of
/// `secret`, a function of `secret` alone.
#[verifier::external_body]
pub(crate) fn ed25519_public_key(secret: &[u8; 32]) -> (pk: [u8; 32])
    ensures
        pk@ == ed25519_public(secret@),
{
    ed25519_dalek::SigningKey::from_bytes(secret).verifying_key().to_bytes()
}

/// `x25519_dalek::x25519(private, X25519_BASEPOINT_BYTES)`: the contract
/// claims only that the result is the X25519 public key of `private`, a
/// function of `private` alone.
#[verifier::external_body]
pub(crate) fn x25519_base(private: &[u8; 32]) -> (pk: [u8; 32])
    ensures
        pk@ == x25519_public(private@),
{
    x25519_dalek::x25519(*private, x25519_dalek::X25519_BASEPOINT_BYTES)
}

} // verus!
