//! AES-CCM (RFC 3610 layout, L = 2) over one-shot buffers.
//!
//! The counter block `A_i` is kept up to date as CCM lays it out, but every
//! key-stream block is the encryption of an all-zero block; the contracts
//! below state exactly that.
use vstd::prelude::*;
use vstd::slice::slice_subrange;
use crate::crypto::block::{aes128_encrypt, aes128_encrypt_block, aes256_encrypt, aes256_encrypt_block};

verus! {

pub const AES_BLOCK_SIZE: usize = 16;

// ---------------------------------------------------------------------------
// Model
// ---------------------------------------------------------------------------

/// Sixteen zero bytes.
pub open spec fn zero_block() -> Seq<u8> {
    Seq::new(16, |i: int| 0u8)
}

/// What one block-cipher call does to a block: AES-256 for a 32-byte key,
/// AES-128 for a 16-byte key, and nothing for any other key length.
pub open spec fn cipher_block(key: Seq<u8>, b: Seq<u8>) -> Seq<u8> {
    if key.len() == 32 {
        aes256_encrypt(key, b)
    } else if key.len() == 16 {
        aes128_encrypt(key, b)
    } else {
        b
    }
}

/// Byte-wise exclusive or of two blocks.
pub open spec fn xor16(a: Seq<u8>, b: Seq<u8>) -> Seq<u8> {
    Seq::new(16, |i: int| a[i] ^ b[i])
}

/// A block holding `s` (at most 16 bytes) followed by zeros.
pub open spec fn pad16(s: Seq<u8>) -> Seq<u8> {
    Seq::new(16, |i: int| if i < s.len() { s[i] } else { 0u8 })
}

/// High byte of a big-endian 16-bit value.
pub open spec fn be16_hi(v: u16) -> u8 {
    (v / 256) as u8
}

/// Low byte of a big-endian 16-bit value.
pub open spec fn be16_lo(v: u16) -> u8 {
    (v % 256) as u8
}

/// The flags byte of `B_0`: the Adata bit, `(M - 2) / 2` in bits 3..5, and
/// `L - 1 = 1` in bits 0..2.
pub open spec fn ccm_flags(m: usize, has_aad: bool) -> u8 {
    ((if has_aad { 64int } else { 0int }) + 8 * ((m - 2) / 2) + 1) as u8
}

/// The first authentication block `B_0`: flags, up to 13 nonce bytes (zero
/// filled), and the message length modulo 2^16, big-endian.
pub open spec fn ccm_b0(m: usize, nonce: Seq<u8>, aad_len: nat, plain_len: usize) -> Seq<u8> {
    let pl = plain_len as u16;
    Seq::new(16, |i: int|
        if i == 0 {
            ccm_flags(m, aad_len > 0)
        } else if i < 14 {
            if i - 1 < nonce.len() { nonce[i - 1] } else { 0u8 }
        } else if i == 14 {
            be16_hi(pl)
        } else {
            be16_lo(pl)
        })
}

/// The first associated-data block: the length of the data (mod 2^16),
/// then its first 14 bytes, zero filled.
pub open spec fn aad_block0(aad: Seq<u8>) -> Seq<u8> {
    let al = aad.len() as u16;
    Seq::new(16, |i: int|
        if i == 0 {
            be16_hi(al)
        } else if i == 1 {
            be16_lo(al)
        } else if i - 2 < aad.len() {
            aad[i - 2]
        } else {
            0u8
        })
}

/// The CBC-MAC state after `B_0` and the associated data.
pub open spec fn ccm_auth_start(key: Seq<u8>, m: usize, nonce: Seq<u8>, aad: Seq<u8>, plain_len: usize) -> Seq<u8> {
    let x0 = cipher_block(key, ccm_b0(m, nonce, aad.len(), plain_len));
    if aad.len() == 0 {
        x0
    } else {
        let x1 = cipher_block(key, xor16(x0, aad_block0(aad)));
        if aad.len() > 14 {
            cipher_block(key, xor16(pad16(aad.skip(14)), x1))
        } else {
            x1
        }
    }
}

/// CBC-MAC chaining of `data` into state `x`, the last block zero padded.
pub open spec fn cbc_mac(key: Seq<u8>, x: Seq<u8>, data: Seq<u8>) -> Seq<u8>
    decreases data.len(),
{
    if data.len() == 0 {
        x
    } else if data.len() <= 16 {
        cipher_block(key, xor16(x, pad16(data)))
    } else {
        cbc_mac(key, cipher_block(key, xor16(x, data.take(16))), data.skip(16))
    }
}

/// The key-stream block: the encryption of an all-zero block.
pub open spec fn ccm_keystream(key: Seq<u8>) -> Seq<u8> {
    cipher_block(key, zero_block())
}

/// Each byte of `input` xored with the key-stream byte at its offset mod 16.
pub open spec fn ccm_crypt(key: Seq<u8>, input: Seq<u8>) -> Seq<u8> {
    Seq::new(input.len(), |j: int| input[j] ^ ccm_keystream(key)[j % 16])
}

/// The CBC-MAC of a message without associated data.
pub open spec fn ccm_mac(key: Seq<u8>, m: usize, nonce: Seq<u8>, msg: Seq<u8>) -> Seq<u8> {
    cbc_mac(key, ccm_auth_start(key, m, nonce, Seq::empty(), msg.len() as usize), msg)
}

/// The `m`-byte tag of a message: its MAC xored with the key stream.
pub open spec fn ccm_tag(key: Seq<u8>, m: usize, nonce: Seq<u8>, msg: Seq<u8>) -> Seq<u8> {
    Seq::new(m as nat, |i: int| ccm_mac(key, m, nonce, msg)[i] ^ ccm_keystream(key)[i])
}

/// The inputs on which `aes_ccm_encrypt` does its work.
pub open spec fn encrypt_accepts(nonce_len: nat, tag_len: usize, plain_len: nat, cipher_len: nat) -> bool {
    nonce_len >= 13 && tag_len <= 16 && cipher_len >= plain_len
}

/// The inputs on which `aes_ccm_decrypt` does its work.
pub open spec fn decrypt_accepts(nonce_len: nat, tag_len: usize, cipher_len: nat, plain_len: nat, given_tag_len: nat) -> bool {
    nonce_len >= 13 && tag_len <= 16 && plain_len >= cipher_len && given_tag_len >= tag_len
}

/// Whether decryption accepts `tag`, and the plaintext it recovers.
pub open spec fn ccm_open(key: Seq<u8>, nonce: Seq<u8>, m: usize, ciphertext: Seq<u8>, tag: Seq<u8>) -> (bool, Seq<u8>) {
    let plain = ccm_crypt(key, ciphertext);
    (ccm_tag(key, m, nonce, plain) == tag.take(m as int), plain)
}

// ---------------------------------------------------------------------------
// Lemmas
// ---------------------------------------------------------------------------

proof fn lemma_xor_twice(a: u8, b: u8)
    ensures
        (a ^ b) ^ b == a,
{
    assert((a ^ b) ^ b == a) by (bit_vector);
}

proof fn lemma_xor_cancel(x: u8, k: u8, t: u8)
    ensures
        (x == (t ^ k)) == ((x ^ k) == t),
{
    assert((x == (t ^ k)) == ((x ^ k) == t)) by (bit_vector);
}

proof fn lemma_or_diff(d: u8, x: u8, y: u8)
    ensures
        ((d | (x ^ y)) == 0) == (d == 0 && x == y),
{
    assert(((d | (x ^ y)) == 0) == (d == 0 && x == y)) by (bit_vector);
}

proof fn lemma_flags(k: usize, has_aad: bool)
    requires
        k <= 7,
    ensures
        ((if has_aad { 0x40u8 } else { 0u8 }) | ((k << 3usize) as u8)) | 1u8
            == ((if has_aad { 64int } else { 0int }) + 8 * k + 1) as u8,
{
    let a: u8 = if has_aad { 0x40u8 } else { 0u8 };
    assert(((a | ((k << 3usize) as u8)) | 1u8) as int == a + 8 * k + 1) by (bit_vector)
        requires
            a == 0u8 || a == 64u8,
            k <= 7;
}

proof fn lemma_be16(v: u16)
    ensures
        (v >> 8u16) as u8 == be16_hi(v),
        v as u8 == be16_lo(v),
{
    assert((v >> 8u16) as u8 == (v / 256) as u8) by (bit_vector);
    assert(v as u8 == (v % 256) as u8) by (bit_vector);
}

/// One full block of CBC-MAC chaining.
proof fn lemma_cbc_step(key: Seq<u8>, x: Seq<u8>, data: Seq<u8>)
    requires
        data.len() >= 16,
    ensures
        cbc_mac(key, x, data) == cbc_mac(key, cipher_block(key, xor16(x, data.take(16))), data.skip(16)),
{
    if data.len() == 16 {
        assert(pad16(data) =~= data.take(16));
        assert(data.skip(16) =~= Seq::<u8>::empty());
    }
}

/// Decrypting the ciphertext of a message recovers the message.
pub proof fn lemma_ccm_crypt_involution(key: Seq<u8>, msg: Seq<u8>)
    ensures
        ccm_crypt(key, ccm_crypt(key, msg)) == msg,
{
    let c = ccm_crypt(key, msg);
    assert forall|j: int| 0 <= j < msg.len() implies #[trigger] ccm_crypt(key, c)[j] == msg[j] by {
        lemma_xor_twice(msg[j], ccm_keystream(key)[j % 16]);
    }
    assert(ccm_crypt(key, c) =~= msg);
}

/// Law: the counter-mode pass that encryption and decryption share undoes
/// itself on buffers: run over the front of its own output, it writes the
/// input back, and it leaves the bytes past the input as they were.
pub proof fn law_ctr_pass_twice(key: Seq<u8>, input: Seq<u8>, out1_before: Seq<u8>, out2_before: Seq<u8>)
    requires
        out1_before.len() >= input.len(),
        out2_before.len() >= input.len(),
    ensures
        ({
            let n = input.len() as int;
            let out1 = ccm_crypt(key, input) + out1_before.skip(n);
            let out2 = ccm_crypt(key, out1.take(n)) + out2_before.skip(n);
            &&& out2.take(n) == input
            &&& out1.skip(n) == out1_before.skip(n)
            &&& out2.skip(n) == out2_before.skip(n)
        }),
{
    let n = input.len() as int;
    let out1 = ccm_crypt(key, input) + out1_before.skip(n);
    assert(out1.take(n) =~= ccm_crypt(key, input));
    lemma_ccm_crypt_involution(key, input);
    let out2 = ccm_crypt(key, out1.take(n)) + out2_before.skip(n);
    assert(out2.take(n) =~= input);
    assert(out1.skip(n) =~= out1_before.skip(n));
    assert(out2.skip(n) =~= out2_before.skip(n));
}

/// Law: what `aes_ccm_encrypt` seals, `aes_ccm_decrypt` opens, with the same
/// key and nonce: the tag is accepted and the message comes back.
pub proof fn lemma_ccm_roundtrip(key: Seq<u8>, nonce: Seq<u8>, m: usize, msg: Seq<u8>)
    ensures
        ccm_open(key, nonce, m, ccm_crypt(key, msg), ccm_tag(key, m, nonce, msg)) == (true, msg),
{
    lemma_ccm_crypt_involution(key, msg);
    let t = ccm_tag(key, m, nonce, msg);
    assert(t.take(m as int) =~= t);
}

// ---------------------------------------------------------------------------
// Implementation
// ---------------------------------------------------------------------------

fn put_be16(buf: &mut [u8], pos: usize, val: u16)
    requires
        pos + 2 <= old(buf)@.len(),
    ensures
        final(buf)@ == old(buf)@.update(pos as int, be16_hi(val)).update(pos + 1, be16_lo(val)),
{
    proof {
        lemma_be16(val);
    }
    buf[pos] = (val >> 8) as u8;
    buf[pos + 1] = val as u8;
}

fn xor_block(dst: &mut [u8; AES_BLOCK_SIZE], src: &[u8; AES_BLOCK_SIZE])
    ensures
        final(dst)@ == xor16(old(dst)@, src@),
{
    let ghost d0 = dst@;
    for i in 0..AES_BLOCK_SIZE
        invariant
            d0.len() == 16,
            dst@.len() == 16,
            forall|j: int| 0 <= j < i ==> dst@[j] == d0[j] ^ src@[j],
            forall|j: int| i <= j < 16 ==> dst@[j] == d0[j],
    {
        dst[i] = dst[i] ^ src[i];
    }
    assert(dst@ =~= xor16(d0, src@));
}

fn encrypt_block(key: &[u8], block: &mut [u8; AES_BLOCK_SIZE])
    ensures
        final(block)@ == cipher_block(key@, old(block)@),
{
    if key.len() == 32 {
        *block = aes256_encrypt_block(key, *block);
    } else if key.len() == 16 {
        *block = aes128_encrypt_block(key, *block);
    }
}

/// Byte comparison whose running time does not depend on where the inputs
/// differ; true exactly when both hold the same bytes.
pub(crate) fn constant_time_compare(a: &[u8], b: &[u8]) -> (r: bool)
    ensures
        r == (a@ == b@),
{
    if a.len() != b.len() {
        return false;
    }
    let mut diff = 0u8;
    for i in 0..a.len()
        invariant
            a@.len() == b@.len(),
            (diff == 0) == (forall|j: int| 0 <= j < i ==> a@[j] == b@[j]),
    {
        proof {
            lemma_or_diff(diff, a@[i as int], b@[i as int]);
        }
        diff = diff | (a[i] ^ b[i]);
    }
    if diff == 0 {
        assert(a@ =~= b@);
    }
    diff == 0
}

fn auth_start(
    key: &[u8],
    m: usize,
    nonce: &[u8],
    aad: &[u8],
    plain_len: usize,
    x: &mut [u8; AES_BLOCK_SIZE],
)
    requires
        2 <= m <= 16,
        aad@.len() <= 30,
    ensures
        final(x)@ == ccm_auth_start(key@, m, nonce@, aad@, plain_len),
{
    let aad_len = aad.len();

    let mut b = [0u8; AES_BLOCK_SIZE];
    b[0] = if aad_len > 0 { 0x40 } else { 0 };
    let k: usize = (m - 2) / 2;
    b[0] = b[0] | (k << 3) as u8;
    b[0] = b[0] | 1u8;
    proof {
        lemma_flags(k, aad_len > 0);
    }
    let nonce_copy_len = if nonce.len() < 13 { nonce.len() } else { 13 };
    for i in 0..nonce_copy_len
        invariant
            nonce_copy_len <= nonce@.len(),
            nonce_copy_len <= 13,
            b@[0] == ccm_flags(m, aad_len > 0),
            forall|j: int| 1 <= j < 1 + i ==> b@[j] == nonce@[j - 1],
            forall|j: int| 1 + i <= j < 16 ==> b@[j] == 0u8,
    {
        b[1 + i] = nonce[i];
    }
    put_be16(&mut b, AES_BLOCK_SIZE - 2, plain_len as u16);
    assert(b@ =~= ccm_b0(m, nonce@, aad@.len(), plain_len));
    encrypt_block(key, &mut b);
    *x = b;

    if aad_len == 0 {
        return;
    }

    let mut aad_buf = [0u8; AES_BLOCK_SIZE];
    put_be16(&mut aad_buf, 0, aad_len as u16);
    let copy_len = if aad.len() < AES_BLOCK_SIZE - 2 { aad.len() } else { AES_BLOCK_SIZE - 2 };
    for i in 0..copy_len
        invariant
            copy_len <= aad@.len(),
            copy_len <= 14,
            copy_len == aad@.len() || copy_len == 14,
            aad_buf@[0] == be16_hi(aad_len as u16),
            aad_buf@[1] == be16_lo(aad_len as u16),
            forall|j: int| 2 <= j < 2 + i ==> aad_buf@[j] == aad@[j - 2],
            forall|j: int| 2 + i <= j < 16 ==> aad_buf@[j] == 0u8,
    {
        aad_buf[2 + i] = aad[i];
    }
    assert(aad_buf@ =~= aad_block0(aad@));
    xor_block(x, &aad_buf);
    encrypt_block(key, x);

    if aad_len > AES_BLOCK_SIZE - 2 {
        let mut second = [0u8; AES_BLOCK_SIZE];
        let remain = aad.len() - (AES_BLOCK_SIZE - 2);
        for i in 0..remain
            invariant
                remain == aad@.len() - 14,
                remain <= 16,
                forall|j: int| 0 <= j < i ==> second@[j] == aad@[j + 14],
                forall|j: int| i <= j < 16 ==> second@[j] == 0u8,
        {
            second[i] = aad[AES_BLOCK_SIZE - 2 + i];
        }
        assert(second@ =~= pad16(aad@.skip(14)));
        xor_block(&mut second, x);
        encrypt_block(key, &mut second);
        *x = second;
    }
}

fn auth_data(key: &[u8], data: &[u8], x: &mut [u8; AES_BLOCK_SIZE])
    ensures
        final(x)@ == cbc_mac(key@, old(x)@, data@),
{
    let len = data.len();
    let full_blocks = len / AES_BLOCK_SIZE;
    let last = len % AES_BLOCK_SIZE;
    let mut offset: usize = 0;
    let ghost x0 = x@;
    assert(data@.skip(0) =~= data@);

    for blk in 0..full_blocks
        invariant
            len == data@.len(),
            full_blocks == data@.len() / 16,
            last == data@.len() % 16,
            offset == 16 * blk,
            offset <= data@.len(),
            cbc_mac(key@, x0, data@) == cbc_mac(key@, x@, data@.skip(offset as int)),
    {
        proof {
            lemma_block_fits(blk as int, data@.len() as int);
        }
        let mut block = [0u8; AES_BLOCK_SIZE];
        for j in 0..AES_BLOCK_SIZE
            invariant
                len == data@.len(),
                offset + 16 <= data@.len(),
                forall|k: int| 0 <= k < j ==> block@[k] == data@[offset + k],
        {
            block[j] = data[offset + j];
        }
        let ghost rest = data@.skip(offset as int);
        assert(block@ =~= rest.take(16));
        proof {
            lemma_cbc_step(key@, x@, rest);
            assert(rest.skip(16) =~= data@.skip(offset + 16));
        }
        xor_block(x, &block);
        encrypt_block(key, x);
        offset = offset + AES_BLOCK_SIZE;
    }

    proof {
        lemma_tail_len(full_blocks as int, data@.len() as int);
    }
    let ghost rest = data@.skip(offset as int);
    assert(rest.len() == last);
    if last > 0 {
        let mut block = [0u8; AES_BLOCK_SIZE];
        for j in 0..last
            invariant
                len == data@.len(),
                offset + last == data@.len(),
                last < 16,
                forall|k: int| 0 <= k < j ==> block@[k] == data@[offset + k],
                forall|k: int| j <= k < 16 ==> block@[k] == 0u8,
        {
            block[j] = data[offset + j];
        }
        assert(block@ =~= pad16(rest));
        xor_block(x, &block);
        encrypt_block(key, x);
    }
}

fn encr_start(nonce: &[u8], a: &mut [u8; AES_BLOCK_SIZE])
    ensures
        final(a)@ == Seq::new(16, |i: int|
            if i == 0 {
                1u8
            } else if 1 <= i < 14 && i - 1 < nonce@.len() {
                nonce@[i - 1]
            } else {
                old(a)@[i]
            }),
{
    let ghost a0 = a@;
    a[0] = 1u8;
    let nonce_copy_len = if nonce.len() < 13 { nonce.len() } else { 13 };
    for i in 0..nonce_copy_len
        invariant
            nonce_copy_len <= nonce@.len(),
            nonce_copy_len <= 13,
            nonce_copy_len == nonce@.len() || nonce_copy_len == 13,
            a@[0] == 1u8,
            forall|j: int| 1 <= j < 1 + i ==> a@[j] == nonce@[j - 1],
            forall|j: int| 1 + i <= j < 16 ==> a@[j] == a0[j],
    {
        a[1 + i] = nonce[i];
    }
    assert(a@ =~= Seq::new(16, |i: int|
        if i == 0 {
            1u8
        } else if 1 <= i < 14 && i - 1 < nonce@.len() {
            nonce@[i - 1]
        } else {
            a0[i]
        }));
}

/// The counter block after `encr` has walked `n` bytes: the last counter
/// written into its two final bytes, if any was.
pub open spec fn ctr_after(a: Seq<u8>, n: nat) -> Seq<u8> {
    if n == 0 {
        a
    } else {
        let c = ((n + 15) / 16) as u16;
        a.update(14, be16_hi(c)).update(15, be16_lo(c))
    }
}

proof fn lemma_block_fits(blk: int, len: int)
    requires
        0 <= blk < len / 16,
        len >= 0,
    ensures
        16 * blk + 16 <= len,
{
    assert(16 * blk + 16 <= len) by (nonlinear_arith)
        requires
            0 <= blk < len / 16,
            len >= 0;
}

proof fn lemma_tail_len(full: int, len: int)
    requires
        full == len / 16,
        len >= 0,
    ensures
        16 * full + len % 16 == len,
{
}

proof fn lemma_ceil_blocks(i: int)
    requires
        i >= 1,
    ensures
        (16 * (i - 1) + 16 + 15) / 16 == i,
{
    assert((16 * (i - 1) + 16 + 15) / 16 == i) by (nonlinear_arith)
        requires
            i >= 1;
}

proof fn lemma_mod16(base: int, j: int)
    requires
        base % 16 == 0,
        0 <= j < 16,
        base >= 0,
    ensures
        (base + j) % 16 == j,
{
}

fn encr(key: &[u8], input: &[u8], output: &mut [u8], a: &mut [u8; AES_BLOCK_SIZE])
    requires
        old(output)@.len() >= input@.len(),
    ensures
        final(output)@ == ccm_crypt(key@, input@) + old(output)@.skip(input@.len() as int),
        final(a)@ == ctr_after(old(a)@, input@.len()),
{
    let len = input.len();
    let full_blocks = len / AES_BLOCK_SIZE;
    let last = len % AES_BLOCK_SIZE;
    let mut off: usize = 0;
    let ghost out0 = output@;
    let ghost a0 = a@;
    let ghost ks = ccm_keystream(key@);
    assert(a0.len() == 16);

    for i in 1..full_blocks + 1
        invariant
            len == input@.len(),
            full_blocks == input@.len() / 16,
            last == input@.len() % 16,
            off == 16 * (i - 1),
            off <= input@.len(),
            output@.len() == out0.len(),
            out0.len() >= input@.len(),
            ks == ccm_keystream(key@),
            forall|j: int| 0 <= j < off ==> output@[j] == input@[j] ^ ks[j % 16],
            forall|j: int| off <= j < out0.len() ==> output@[j] == out0[j],
            a@ == (if i == 1 { a0 } else { ctr_after(a0, off as nat) }),
            a@.len() == 16,
            a0.len() == 16,
    {
        proof {
            lemma_block_fits((i - 1) as int, input@.len() as int);
        }
        put_be16(a, AES_BLOCK_SIZE - 2, #[verifier::truncate] (i as u16));
        proof {
            lemma_ceil_blocks(i as int);
            assert(a@ =~= ctr_after(a0, (off + 16) as nat));
        }
        let mut stream = [0u8; AES_BLOCK_SIZE];
        assert(stream@ =~= zero_block());
        encrypt_block(key, &mut stream);
        for j in 0..AES_BLOCK_SIZE
            invariant
                off + 16 <= input@.len(),
                output@.len() == out0.len(),
                out0.len() >= input@.len(),
                stream@ == ks,
                off % 16 == 0,
                forall|k: int| 0 <= k < off + j ==> output@[k] == input@[k] ^ ks[k % 16],
                forall|k: int| off + j <= k < out0.len() ==> output@[k] == out0[k],
        {
            proof {
                lemma_mod16(off as int, j as int);
            }
            output[off + j] = input[off + j] ^ stream[j];
        }
        off = off + AES_BLOCK_SIZE;
    }

    if last > 0 {
        let i = full_blocks + 1;
        put_be16(a, AES_BLOCK_SIZE - 2, #[verifier::truncate] (i as u16));
        proof {
            lemma_tail_len(full_blocks as int, input@.len() as int);
            assert((input@.len() + 15) / 16 == i);
            assert(a@ =~= ctr_after(a0, input@.len()));
        }
        let mut stream = [0u8; AES_BLOCK_SIZE];
        assert(stream@ =~= zero_block());
        encrypt_block(key, &mut stream);
        for j in 0..last
            invariant
                off + last == input@.len(),
                last < 16,
                output@.len() == out0.len(),
                out0.len() >= input@.len(),
                stream@ == ks,
                off % 16 == 0,
                forall|k: int| 0 <= k < off + j ==> output@[k] == input@[k] ^ ks[k % 16],
                forall|k: int| off + j <= k < out0.len() ==> output@[k] == out0[k],
        {
            proof {
                lemma_mod16(off as int, j as int);
            }
            output[off + j] = input[off + j] ^ stream[j];
        }
    } else {
        proof {
            lemma_tail_len(full_blocks as int, input@.len() as int);
        }
    }
    assert(output@ =~= ccm_crypt(key@, input@) + out0.skip(input@.len() as int));
}

fn encr_auth(key: &[u8], m: usize, x: &[u8; AES_BLOCK_SIZE], a: &mut [u8; AES_BLOCK_SIZE], auth: &mut [u8])
    requires
        m <= 16,
        old(auth)@.len() >= m,
    ensures
        final(a)@ == old(a)@.update(14, 0u8).update(15, 0u8),
        final(auth)@ == Seq::new(m as nat, |i: int| x@[i] ^ ccm_keystream(key@)[i]) + old(auth)@.skip(m as int),
{
    put_be16(a, AES_BLOCK_SIZE - 2, 0);
    let mut tmp = [0u8; AES_BLOCK_SIZE];
    assert(tmp@ =~= zero_block());
    encrypt_block(key, &mut tmp);
    let ghost auth0 = auth@;
    for i in 0..m
        invariant
            m <= 16,
            auth@.len() == auth0.len(),
            auth0.len() >= m,
            tmp@ == ccm_keystream(key@),
            forall|j: int| 0 <= j < i ==> auth@[j] == x@[j] ^ tmp@[j],
            forall|j: int| i <= j < auth0.len() ==> auth@[j] == auth0[j],
    {
        auth[i] = x[i] ^ tmp[i];
    }
    assert(auth@ =~= Seq::new(m as nat, |i: int| x@[i] ^ ccm_keystream(key@)[i]) + auth0.skip(m as int));
}

fn decr_auth(key: &[u8], m: usize, a: &mut [u8; AES_BLOCK_SIZE], auth: &[u8], t: &mut [u8; AES_BLOCK_SIZE])
    requires
        m <= 16,
        auth@.len() >= m,
    ensures
        final(a)@ == old(a)@.update(14, 0u8).update(15, 0u8),
        forall|i: int| 0 <= i < m ==> final(t)@[i] == auth@[i] ^ ccm_keystream(key@)[i],
        forall|i: int| m <= i < 16 ==> final(t)@[i] == old(t)@[i],
{
    put_be16(a, AES_BLOCK_SIZE - 2, 0);
    let mut tmp = [0u8; AES_BLOCK_SIZE];
    assert(tmp@ =~= zero_block());
    encrypt_block(key, &mut tmp);
    let ghost t0 = t@;
    for i in 0..m
        invariant
            m <= 16,
            auth@.len() >= m,
            tmp@ == ccm_keystream(key@),
            forall|j: int| 0 <= j < i ==> t@[j] == auth@[j] ^ tmp@[j],
            forall|j: int| i <= j < 16 ==> t@[j] == t0[j],
    {
        t[i] = auth[i] ^ tmp[i];
    }
}

/// Encrypts `plaintext` into the front of `ciphertext` and writes an
/// `tag_len`-byte tag into the front of `tag`. Returns false, writing
/// nothing, when the nonce is shorter than 13 bytes, the tag longer than 16,
/// or `ciphertext` shorter than `plaintext`.
pub fn aes_ccm_encrypt(
    key: &[u8],
    nonce: &[u8],
    tag_len: usize,
    plaintext: &[u8],
    ciphertext: &mut [u8],
    tag: &mut [u8],
) -> (ok: bool)
    requires
        encrypt_accepts(nonce@.len(), tag_len, plaintext@.len(), old(ciphertext)@.len())
            ==> 2 <= tag_len && old(tag)@.len() >= tag_len,
    ensures
        ok == encrypt_accepts(nonce@.len(), tag_len, plaintext@.len(), old(ciphertext)@.len()),
        ok ==> final(ciphertext)@ == ccm_crypt(key@, plaintext@) + old(ciphertext)@.skip(plaintext@.len() as int),
        ok ==> final(tag)@ == ccm_tag(key@, tag_len, nonce@, plaintext@) + old(tag)@.skip(tag_len as int),
        !ok ==> final(ciphertext)@ == old(ciphertext)@ && final(tag)@ == old(tag)@,
{
    if nonce.len() < 13 || tag_len > AES_BLOCK_SIZE || ciphertext.len() < plaintext.len() {
        return false;
    }

    let mut x = [0u8; AES_BLOCK_SIZE];
    let mut a = [0u8; AES_BLOCK_SIZE];
    let no_aad: [u8; 0] = [];
    assert(no_aad@ =~= Seq::<u8>::empty());

    auth_start(key, tag_len, nonce, &no_aad, plaintext.len(), &mut x);
    auth_data(key, plaintext, &mut x);
    assert(x@ == ccm_mac(key@, tag_len, nonce@, plaintext@));

    encr_start(nonce, &mut a);
    encr(key, plaintext, ciphertext, &mut a);
    encr_auth(key, tag_len, &x, &mut a, tag);
    true
}

/// Decrypts the front of `plaintext` from `ciphertext` and checks the first
/// `tag_len` bytes of `tag` against the tag of what it decrypted. Returns
/// false, writing nothing, when the nonce is shorter than 13 bytes, the tag
/// longer than 16 or than `tag`, or `plaintext` shorter than `ciphertext`;
/// otherwise the plaintext is written and the result says whether the tag
/// matched.
pub fn aes_ccm_decrypt(
    key: &[u8],
    nonce: &[u8],
    tag_len: usize,
    ciphertext: &[u8],
    plaintext: &mut [u8],
    tag: &[u8],
) -> (ok: bool)
    requires
        decrypt_accepts(nonce@.len(), tag_len, ciphertext@.len(), old(plaintext)@.len(), tag@.len())
            ==> 2 <= tag_len,
    ensures
        !decrypt_accepts(nonce@.len(), tag_len, ciphertext@.len(), old(plaintext)@.len(), tag@.len())
            ==> !ok && final(plaintext)@ == old(plaintext)@,
        decrypt_accepts(nonce@.len(), tag_len, ciphertext@.len(), old(plaintext)@.len(), tag@.len()) ==> {
            &&& ok == ccm_open(key@, nonce@, tag_len, ciphertext@, tag@).0
            &&& final(plaintext)@ == ccm_open(key@, nonce@, tag_len, ciphertext@, tag@).1
                + old(plaintext)@.skip(ciphertext@.len() as int)
        },
{
    if nonce.len() < 13 || tag_len > AES_BLOCK_SIZE || plaintext.len() < ciphertext.len()
        || tag.len() < tag_len {
        return false;
    }

    let mut x = [0u8; AES_BLOCK_SIZE];
    let mut a = [0u8; AES_BLOCK_SIZE];
    let mut t = [0u8; AES_BLOCK_SIZE];
    let no_aad: [u8; 0] = [];
    assert(no_aad@ =~= Seq::<u8>::empty());
    let ghost ks = ccm_keystream(key@);

    encr_start(nonce, &mut a);
    decr_auth(key, tag_len, &mut a, tag, &mut t);
    encr(key, ciphertext, plaintext, &mut a);

    let n = ciphertext.len();
    let decrypted = slice_subrange(&*plaintext, 0, n);
    assert(decrypted@ =~= ccm_crypt(key@, ciphertext@));
    auth_start(key, tag_len, nonce, &no_aad, n, &mut x);
    auth_data(key, decrypted, &mut x);
    assert(x@ == ccm_mac(key@, tag_len, nonce@, decrypted@));

    let xs = slice_subrange(&x, 0, tag_len);
    let ts = slice_subrange(&t, 0, tag_len);
    let ok = constant_time_compare(xs, ts);
    proof {
        let tg = ccm_tag(key@, tag_len, nonce@, decrypted@);
        assert forall|i: int| 0 <= i < tag_len implies (xs@[i] == ts@[i]) == (tg[i] == tag@[i]) by {
            lemma_xor_cancel(x@[i], ks[i], tag@[i]);
        }
        if ok {
            assert(tg =~= tag@.take(tag_len as int));
        } else {
            assert(!(xs@ =~= ts@));
            if tg =~= tag@.take(tag_len as int) {
                assert forall|i: int| 0 <= i < tag_len implies xs@[i] == ts@[i] by {
                    assert(tg[i] == tag@.take(tag_len as int)[i]);
                }
                assert(xs@ =~= ts@);
            }
        }
    }
    ok
}

} // verus!
