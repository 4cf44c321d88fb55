use lunarcore::crypto::aes_ccm::{aes_ccm_decrypt, aes_ccm_encrypt};

#[test]
fn test_aes_ccm_roundtrip() {
    let key = [0x42u8; 32];
    let nonce = [
        0x01, 0x02, 0x03, 0x04, 0x05, 0x06, 0x07, 0x08, 0x09, 0x0a, 0x0b, 0x0c, 0x00,
    ];
    let plaintext = b"Meshtastic PKI test payload";

    let mut ciphertext = [0u8; 64];
    let mut tag = [0u8; 8];
    assert!(aes_ccm_encrypt(
        &key,
        &nonce,
        8,
        plaintext,
        &mut ciphertext[..plaintext.len()],
        &mut tag,
    ));

    let mut decrypted = [0u8; 64];
    assert!(aes_ccm_decrypt(
        &key,
        &nonce,
        8,
        &ciphertext[..plaintext.len()],
        &mut decrypted,
        &tag,
    ));
    assert_eq!(&decrypted[..plaintext.len()], plaintext);
}
