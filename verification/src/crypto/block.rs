//! The AES block cipher, as used by the CCM mode in `aes_ccm`.
use vstd::prelude::*;
use aes::cipher::{BlockEncrypt, KeyInit};
use aes::cipher::generic_array::GenericArray;

verus! {

/// The AES-128 encryption of one 16-byte block under a 16-byte key.
pub uninterp spec fn aes128_encrypt(key: Seq<u8>, block: Seq<u8>) -> Seq<u8>;

/// The AES-256 encryption of one 16-byte block under a 32-byte key.
pub uninterp spec fn aes256_encrypt(key: Seq<u8>, block: Seq<u8>) -> Seq<u8>;

/// Encrypts one block with `aes::Aes128` (`KeyInit::new` then
/// `BlockEncrypt::encrypt_block`). The contract claims only that the result is
/// the AES-128 image of the block under the key, a function of both alone.
#[verifier::external_body]
pub(crate) fn aes128_encrypt_block(key: &[u8], block: [u8; 16]) -> (out: [u8; 16])
    requires
        key@.len() == 16,
    ensures
        out@ == aes128_encrypt(key@, block@),
{
    let cipher = aes::Aes128::new(GenericArray::from_slice(key));
    let mut b = GenericArray::from(block);
    cipher.encrypt_block(&mut b);
    b.into()
}

/// Encrypts one block with `aes::Aes256` (`KeyInit::new` then
/// `BlockEncrypt::encrypt_block`). The contract claims only that the result is
/// the AES-256 image of the block under the key, a function of both alone.
#[verifier::external_body]
pub(crate) fn aes256_encrypt_block(key: &[u8], block: [u8; 16]) -> (out: [u8; 16])
    requires
        key@.len() == 32,
    ensures
        out@ == aes256_encrypt(key@, block@),
{
    let cipher = aes::Aes256::new(GenericArray::from_slice(key));
    let mut b = GenericArray::from(block);
    cipher.encrypt_block(&mut b);
    b.into()
}

} // verus!
