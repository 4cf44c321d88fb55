//! The framing around end-to-end encrypted payloads on the air: how much of
//! a payload fits a wire packet, when an onion route is used, how the
//! session hint and the message header are laid out, and the errors of
//! that path.
use vstd::prelude::*;

verus! {

/// The largest payload a wire packet carries.
pub const WIRE_PAYLOAD_MAX: usize = 214;

/// The length of a session message header.
pub const SESSION_HEADER_LEN: usize = 48;

/// The bytes each onion layer adds.
pub const ONION_LAYER_LEN: usize = 18;

/// The most onion layers a packet can have.
pub const ONION_MAX_LAYERS: usize = 7;

/// The relays an onion route goes through.
pub const ONION_ROUTE_HOPS: usize = 3;

#[derive(Debug, Clone, Copy, PartialEq, Eq, Structural)]
pub enum CryptoError {
    SessionError,
    EncryptionFailed,
    DecryptionFailed,
    NoSession,
    OnionError,
    InvalidFormat,
    BufferOverflow,
}

/// What an encrypted packet from the air turns out to be.
#[derive(Debug, Clone, PartialEq, Eq)]
pub enum DecryptResult {
    /// A message for this node.
    Plaintext(Vec<u8>),
    /// An onion layer peeled off: the rest goes on to the next hop.
    Forward { next_hop: u16, data: Vec<u8> },
}

/// How many bytes of a payload go into a wire packet.
pub fn wire_payload_len(len: usize) -> (n: usize)
    ensures
        n == (if len < WIRE_PAYLOAD_MAX { len } else { WIRE_PAYLOAD_MAX }),
{
    if len < WIRE_PAYLOAD_MAX { len } else { WIRE_PAYLOAD_MAX }
}

/// A message goes through an onion route when the sender asks for one and
/// enough relays are known to build it.
pub fn use_onion_route(requested: bool, known_relays: usize) -> (r: bool)
    ensures
        r == (requested && known_relays >= ONION_ROUTE_HOPS),
{
    requested && known_relays >= ONION_ROUTE_HOPS
}

/// The number of onion layers a received packet of `wire_len` bytes may
/// hold.
pub fn onion_layers(wire_len: usize) -> (n: u8)
    ensures
        n as int == (if wire_len / 18 < 7 { wire_len / 18 } else { 7 }),
{
    let l = wire_len / ONION_LAYER_LEN;
    if l < ONION_MAX_LAYERS { l as u8 } else { ONION_MAX_LAYERS as u8 }
}

/// The session hint word of a wire packet: four bytes, most significant
/// first.
pub fn session_hint_word(b: [u8; 4]) -> (w: u32)
    ensures
        w as int == b[0] as int * 0x1000000 + b[1] as int * 0x10000 + b[2] as int * 0x100 + b[3] as int,
{
    let (b0, b1, b2, b3) = (b[0] as u32, b[1] as u32, b[2] as u32, b[3] as u32);
    assert((b0 << 24u32) | (b1 << 16u32) | (b2 << 8u32) | b3 == b0 * 0x1000000 + b1 * 0x10000 + b2 * 0x100 + b3)
        by (bit_vector)
        requires
            b0 < 256,
            b1 < 256,
            b2 < 256,
            b3 < 256,
    ;
    (b0 << 24) | (b1 << 16) | (b2 << 8) | b3
}

/// Splits a session message into its header and its ciphertext; a message
/// shorter than a header is malformed.
pub fn split_session_message(msg: &[u8]) -> (r: Result<(&[u8], &[u8]), CryptoError>)
    ensures
        msg@.len() < SESSION_HEADER_LEN ==> r == Err::<(&[u8], &[u8]), CryptoError>(CryptoError::InvalidFormat),
        msg@.len() >= SESSION_HEADER_LEN ==> r is Ok
            && r->Ok_0.0@ == msg@.take(SESSION_HEADER_LEN as int)
            && r->Ok_0.1@ == msg@.skip(SESSION_HEADER_LEN as int),
{
    if msg.len() < SESSION_HEADER_LEN {
        return Err(CryptoError::InvalidFormat);
    }
    let header = vstd::slice::slice_subrange(msg, 0, SESSION_HEADER_LEN);
    let body = vstd::slice::slice_subrange(msg, SESSION_HEADER_LEN, msg.len());
    assert(header@ =~= msg@.take(SESSION_HEADER_LEN as int));
    assert(body@ =~= msg@.skip(SESSION_HEADER_LEN as int));
    Ok((header, body))
}

} // verus!
