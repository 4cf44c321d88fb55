//! The node's identity: its number, hardware ids, and the signing and
//! encryption key pairs derived from a random seed.
use vstd::prelude::*;
use crate::crypto::curve::{ed25519_public, ed25519_public_key, x25519_base, x25519_public};
use crate::crypto::digest::{sha256, sha256_hash};
use crate::rng::fill_random;

verus! {

#[derive(Clone)]
pub struct DeviceIdentity {
    pub node_id: u32,
    pub mac_address: [u8; 6],
    pub hardware_serial: [u8; 8],
    pub public_key: [u8; 32],
    pub private_key: [u8; 32],
    pub encryption_public: [u8; 32],
    pub encryption_private: [u8; 32],
}

/// "LunarCore Signing v1".
pub open spec fn kdf_signing() -> Seq<u8> {
    seq![76u8, 117u8, 110u8, 97u8, 114u8, 67u8, 111u8, 114u8, 101u8, 32u8, 83u8, 105u8, 103u8, 110u8,
        105u8, 110u8, 103u8, 32u8, 118u8, 49u8]
}

/// "LunarCore Encryption v1".
pub open spec fn kdf_encryption() -> Seq<u8> {
    seq![76u8, 117u8, 110u8, 97u8, 114u8, 67u8, 111u8, 114u8, 101u8, 32u8, 69u8, 110u8, 99u8, 114u8,
        121u8, 112u8, 116u8, 105u8, 111u8, 110u8, 32u8, 118u8, 49u8]
}

/// A key for a purpose: SHA-256 of the seed followed by the context (cut to
/// 32 bytes), zero-padded to 64 bytes.
pub open spec fn derive_key_model(seed: Seq<u8>, context: Seq<u8>) -> Seq<u8> {
    let n = if context.len() < 32 { context.len() } else { 32 };
    sha256(seed + context.take(n as int) + Seq::new((32 - n) as nat, |i: int| 0u8))
}

/// An X25519 private key clamped as RFC 7748 asks: the low three bits and
/// the top bit cleared, bit 254 set.
pub open spec fn clamp_x25519(k: Seq<u8>) -> Seq<u8> {
    k.update(0, k[0] & 248u8).update(31, (k[31] & 127u8) | 64u8)
}

pub open spec fn signing_key_model(seed: Seq<u8>) -> Seq<u8> {
    derive_key_model(seed, kdf_signing())
}

pub open spec fn encryption_key_model(seed: Seq<u8>) -> Seq<u8> {
    clamp_x25519(derive_key_model(seed, kdf_encryption()))
}

/// The encryption key of an identity that only stored its signing key: its
/// seed is the hash of the signing key and the hardware serial.
pub open spec fn encryption_from_signing_model(signing: Seq<u8>, serial: Seq<u8>) -> Seq<u8> {
    encryption_key_model(sha256(signing + serial))
}

/// The node number made from four random bytes: little-endian, top bit set.
pub open spec fn node_id_from_bytes(b: Seq<u8>) -> u32 {
    ((b[0] as int + 256 * b[1] as int + 65536 * b[2] as int + 16777216 * b[3] as int) as u32) | 0x8000_0000u32
}

/// Where an identity comes from, given what storage holds.
#[derive(Debug, Clone, Copy, PartialEq, Eq, Structural)]
pub enum IdentitySource {
    /// Node number, signing key and encryption key are all stored.
    Stored,
    /// Node number and signing key are stored; the encryption key is derived
    /// from the signing key and stored.
    StoredDerivingEncryption,
    /// A new random identity is made and stored.
    Fresh,
}

/// A stored identity is used when its node number and signing key are both
/// there; otherwise a fresh one is made.
pub fn identity_source(has_node_id: bool, has_signing: bool, has_encryption: bool) -> (s: IdentitySource)
    ensures
        s == (if has_node_id && has_signing {
            if has_encryption { IdentitySource::Stored } else { IdentitySource::StoredDerivingEncryption }
        } else {
            IdentitySource::Fresh
        }),
{
    if has_node_id && has_signing {
        if has_encryption {
            IdentitySource::Stored
        } else {
            IdentitySource::StoredDerivingEncryption
        }
    } else {
        IdentitySource::Fresh
    }
}

fn kdf_signing_bytes() -> (c: [u8; 20])
    ensures
        c@ == kdf_signing(),
{
    let c = [0x4c, 0x75, 0x6e, 0x61, 0x72, 0x43, 0x6f, 0x72, 0x65, 0x20, 0x53, 0x69, 0x67, 0x6e, 0x69, 0x6e, 0x67, 0x20, 0x76, 0x31];
    assert(c@ =~= kdf_signing());
    c
}

fn kdf_encryption_bytes() -> (c: [u8; 23])
    ensures
        c@ == kdf_encryption(),
{
    let c = [0x4c, 0x75, 0x6e, 0x61, 0x72, 0x43, 0x6f, 0x72, 0x65, 0x20, 0x45, 0x6e, 0x63, 0x72, 0x79, 0x70, 0x74, 0x69, 0x6f, 0x6e, 0x20, 0x76, 0x31];
    assert(c@ =~= kdf_encryption());
    c
}

fn concat_40(a: &[u8; 32], b: &[u8; 8]) -> (m: [u8; 40])
    ensures
        m@ == a@ + b@,
{
    let mut m = [0u8; 40];
    for i in 0..32
        invariant
            forall|j: int| 0 <= j < i ==> m@[j] == a@[j],
    {
        m[i] = a[i];
    }
    for i in 0..8
        invariant
            forall|j: int| 0 <= j < 32 ==> m@[j] == a@[j],
            forall|j: int| 32 <= j < 32 + i ==> m@[j] == b@[j - 32],
    {
        m[32 + i] = b[i];
    }
    assert(m@ =~= a@ + b@);
    m
}

impl DeviceIdentity {
    /// The node's identity from what was read from the chip (MAC address,
    /// serial) and from storage or made fresh (node number, private keys),
    /// with both public keys computed from the private ones.
    pub fn from_hardware(
        node_id: u32,
        mac_address: [u8; 6],
        hardware_serial: [u8; 8],
        private_key: [u8; 32],
        encryption_private: [u8; 32],
    ) -> (d: Self)
        ensures
            d.node_id == node_id,
            d.mac_address == mac_address,
            d.hardware_serial == hardware_serial,
            d.private_key == private_key,
            d.encryption_private == encryption_private,
            d.public_key@ == ed25519_public(private_key@),
            d.encryption_public@ == x25519_public(encryption_private@),
    {
        let public_key = ed25519_public_key(&private_key);
        let encryption_public = x25519_base(&encryption_private);
        Self { node_id, mac_address, hardware_serial, public_key, private_key, encryption_public, encryption_private }
    }

    /// The node number made from four random bytes.
    pub fn node_id_from_random(random_bytes: [u8; 4]) -> (id: u32)
        ensures
            id == node_id_from_bytes(random_bytes@),
            id >= 0x8000_0000,
    {
        let v = (random_bytes[0] as u32) | ((random_bytes[1] as u32) << 8) | ((random_bytes[2] as u32) << 16)
            | ((random_bytes[3] as u32) << 24);
        let (b0, b1, b2, b3) = (random_bytes[0], random_bytes[1], random_bytes[2], random_bytes[3]);
        assert(((b0 as u32) | ((b1 as u32) << 8u32) | ((b2 as u32) << 16u32) | ((b3 as u32) << 24u32))
            == (b0 as int + 256 * b1 as int + 65536 * b2 as int + 16777216 * b3 as int) as u32) by (bit_vector);
        let id = v | 0x8000_0000;
        assert((v | 0x8000_0000u32) >= 0x8000_0000u32) by (bit_vector);
        id
    }

    /// A random node number, its top bit set.
    pub fn generate_random_node_id() -> (id: u32)
        ensures
            id >= 0x8000_0000,
    {
        let mut random_bytes = [0u8; 4];
        fill_random(&mut random_bytes);
        Self::node_id_from_random(random_bytes)
    }

    /// The seed made from 32 random bytes: their hash with the hardware
    /// serial.
    pub fn seed_from_random(random: &[u8; 32], hardware_serial: &[u8; 8]) -> (seed: [u8; 32])
        ensures
            seed@ == sha256(random@ + hardware_serial@),
    {
        let mixed = concat_40(random, hardware_serial);
        sha256_hash(&mixed)
    }

    /// A random seed mixed with the hardware serial.
    pub fn generate_random_seed(hardware_serial: &[u8; 8]) -> (seed: [u8; 32])
        ensures
            exists|r: Seq<u8>| r.len() == 32 && seed@ == sha256(r + hardware_serial@),
    {
        let mut random = [0u8; 32];
        fill_random(&mut random);
        let seed = Self::seed_from_random(&random, hardware_serial);
        assert(random@.len() == 32);
        seed
    }

    /// The key for a purpose, derived from a seed and a context string.
    pub fn derive_key(seed: &[u8; 32], context: &[u8]) -> (k: [u8; 32])
        ensures
            k@ == derive_key_model(seed@, context@),
    {
        let mut input = [0u8; 64];
        for i in 0..32
            invariant
                forall|j: int| 0 <= j < i ==> input@[j] == seed@[j],
                forall|j: int| 32 <= j < 64 ==> input@[j] == 0u8,
        {
            input[i] = seed[i];
        }
        let len = if context.len() < 32 { context.len() } else { 32 };
        for i in 0..len
            invariant
                len <= context@.len(),
                len <= 32,
                forall|j: int| 0 <= j < 32 ==> input@[j] == seed@[j],
                forall|j: int| 32 <= j < 32 + i ==> input@[j] == context@[j - 32],
                forall|j: int| 32 + i <= j < 64 ==> input@[j] == 0u8,
        {
            input[32 + i] = context[i];
        }
        assert(input@ =~= seed@ + context@.take(len as int) + Seq::new((32 - len) as nat, |i: int| 0u8));
        sha256_hash(&input)
    }

    /// The Ed25519 signing key of a seed.
    pub fn derive_signing_key(seed: &[u8; 32]) -> (k: [u8; 32])
        ensures
            k@ == signing_key_model(seed@),
    {
        let ctx = kdf_signing_bytes();
        Self::derive_key(seed, &ctx)
    }

    /// The X25519 encryption key of a seed, clamped.
    pub fn derive_encryption_key(seed: &[u8; 32]) -> (k: [u8; 32])
        ensures
            k@ == encryption_key_model(seed@),
            k@[0] & 7u8 == 0,
            k@[31] & 128u8 == 0,
            k@[31] & 64u8 == 64,
    {
        let ctx = kdf_encryption_bytes();
        let mut key = Self::derive_key(seed, &ctx);
        let (x0, x31) = (key[0], key[31]);
        assert((x0 & 248u8) & 7u8 == 0) by (bit_vector);
        assert(((x31 & 127u8) | 64u8) & 128u8 == 0 && ((x31 & 127u8) | 64u8) & 64u8 == 64) by (bit_vector);
        key[0] = key[0] & 248;
        key[31] = key[31] & 127;
        key[31] = key[31] | 64;
        assert(key@ =~= encryption_key_model(seed@));
        key
    }

    /// The encryption key for an identity that stored only its signing key.
    pub fn derive_encryption_from_signing(signing_private: &[u8; 32], hardware_serial: &[u8; 8]) -> (k: [u8; 32])
        ensures
            k@ == encryption_from_signing_model(signing_private@, hardware_serial@),
            k@[0] & 7u8 == 0,
            k@[31] & 128u8 == 0,
            k@[31] & 64u8 == 64,
    {
        let mut seed = [0u8; 32];
        for i in 0..32
            invariant
                forall|j: int| 0 <= j < i ==> seed@[j] == signing_private@[j],
        {
            seed[i] = signing_private[i];
        }
        assert(seed@ =~= signing_private@);
        let mixed = concat_40(&seed, hardware_serial);
        let derived = sha256_hash(&mixed);
        Self::derive_encryption_key(&derived)
    }

    /// The X25519 public key of this node.
    pub fn x25519_pubkey(&self) -> (k: [u8; 32])
        ensures
            k == self.encryption_public,
    {
        self.encryption_public
    }
}

/// The Wi-Fi switch a stored byte means: on when nonzero, off when zero or
/// missing.
pub open spec fn wifi_from_stored(stored: Option<u8>) -> bool {
    match stored {
        Some(v) => v != 0,
        None => false,
    }
}

/// The byte stored for the Wi-Fi switch.
pub open spec fn wifi_stored_byte(enabled: bool) -> u8 {
    if enabled { 1u8 } else { 0u8 }
}

/// The Wi-Fi setting from its stored byte (`None` when nothing is stored).
pub fn load_wifi_setting(stored: Option<u8>) -> (on: bool)
    ensures
        on == wifi_from_stored(stored),
{
    match stored {
        Some(v) => v != 0,
        None => false,
    }
}

/// The byte to store for a Wi-Fi setting.
pub fn save_wifi_setting(enabled: bool) -> (b: u8)
    ensures
        b == wifi_stored_byte(enabled),
{
    if enabled { 1 } else { 0 }
}

/// Law: a stored Wi-Fi setting reads back as it was saved.
pub proof fn law_wifi_setting_roundtrip(enabled: bool)
    ensures
        wifi_from_stored(Some(wifi_stored_byte(enabled))) == enabled,
{
}

} // verus!
