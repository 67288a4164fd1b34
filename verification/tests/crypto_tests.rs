//! Chunk codec behaviour: round trips, determinism, tamper rejection, and
//! nonce derivation.

use swarmdrop::crypto::{derive_nonce, generate_key, TransferCrypto};

fn test_uuid() -> u128 {
    uuid::Uuid::parse_str("a1b2c3d4-e5f6-4789-abcd-ef0123456789").unwrap().as_u128()
}

fn test_uuid2() -> u128 {
    uuid::Uuid::parse_str("11111111-2222-3333-4444-555555555555").unwrap().as_u128()
}

#[test]
fn encrypt_decrypt_roundtrip() {
    let key = generate_key();
    let crypto = TransferCrypto::new(&key);
    let sid = test_uuid();
    let plaintext = b"hello, swarmdrop!";

    let ciphertext = crypto.encrypt_chunk(sid, 0, 0, plaintext).unwrap();

    assert_eq!(ciphertext.len(), plaintext.len() + 16);

    let decrypted = crypto.decrypt_chunk(sid, 0, 0, &ciphertext).unwrap();

    assert_eq!(decrypted, plaintext);
}

#[test]
fn decrypt_with_wrong_key_fails() {
    let key1 = generate_key();
    let key2 = generate_key();
    let crypto1 = TransferCrypto::new(&key1);
    let crypto2 = TransferCrypto::new(&key2);
    let sid = test_uuid();

    let ciphertext = crypto1.encrypt_chunk(sid, 0, 0, b"secret data").unwrap();

    let result = crypto2.decrypt_chunk(sid, 0, 0, &ciphertext);
    assert!(result.is_err());
}

#[test]
fn decrypt_with_wrong_nonce_params_fails() {
    let key = generate_key();
    let crypto = TransferCrypto::new(&key);
    let sid = test_uuid();
    let sid2 = test_uuid2();

    let ciphertext = crypto.encrypt_chunk(sid, 0, 0, b"data").unwrap();

    assert!(crypto.decrypt_chunk(sid2, 0, 0, &ciphertext).is_err());
    assert!(crypto.decrypt_chunk(sid, 1, 0, &ciphertext).is_err());
    assert!(crypto.decrypt_chunk(sid, 0, 1, &ciphertext).is_err());
}

#[test]
fn same_input_produces_same_ciphertext() {
    let key = generate_key();
    let crypto = TransferCrypto::new(&key);
    let sid = test_uuid();
    let plaintext = b"idempotent data";

    let ct1 = crypto.encrypt_chunk(sid, 0, 5, plaintext).unwrap();
    let ct2 = crypto.encrypt_chunk(sid, 0, 5, plaintext).unwrap();

    assert_eq!(ct1, ct2);
}

#[test]
fn different_chunks_produce_different_ciphertext() {
    let key = generate_key();
    let crypto = TransferCrypto::new(&key);
    let sid = test_uuid();
    let plaintext = b"same data";

    let ct0 = crypto.encrypt_chunk(sid, 0, 0, plaintext).unwrap();
    let ct1 = crypto.encrypt_chunk(sid, 0, 1, plaintext).unwrap();

    assert_ne!(ct0, ct1);
}

#[test]
fn tampered_ciphertext_rejected() {
    let key = generate_key();
    let crypto = TransferCrypto::new(&key);
    let sid = test_uuid();

    let mut ciphertext = crypto.encrypt_chunk(sid, 0, 0, b"important data").unwrap();

    ciphertext[0] ^= 0xff;

    let result = crypto.decrypt_chunk(sid, 0, 0, &ciphertext);
    assert!(result.is_err());
}

#[test]
fn tampering_any_bit_rejected() {
    let key = generate_key();
    let crypto = TransferCrypto::new(&key);
    let sid = test_uuid();

    let ciphertext = crypto.encrypt_chunk(sid, 0, 0, b"bits").unwrap();

    for byte in 0..ciphertext.len() {
        for bit in 0..8 {
            let mut mutated = ciphertext.clone();
            mutated[byte] ^= 1 << bit;
            assert!(crypto.decrypt_chunk(sid, 0, 0, &mutated).is_err());
        }
    }
}

#[test]
fn large_chunk_roundtrip() {
    let key = generate_key();
    let crypto = TransferCrypto::new(&key);
    let sid = test_uuid();

    let plaintext: Vec<u8> = (0..256 * 1024).map(|i| (i % 256) as u8).collect();

    let ciphertext = crypto.encrypt_chunk(sid, 3, 42, &plaintext).unwrap();

    assert_eq!(ciphertext.len(), plaintext.len() + 16);

    let decrypted = crypto.decrypt_chunk(sid, 3, 42, &ciphertext).unwrap();

    assert_eq!(decrypted, plaintext);
}

#[test]
fn empty_plaintext_roundtrip() {
    let key = generate_key();
    let crypto = TransferCrypto::new(&key);
    let sid = test_uuid();

    let ciphertext = crypto.encrypt_chunk(sid, 0, 0, b"").unwrap();

    assert_eq!(ciphertext.len(), 16);

    let decrypted = crypto.decrypt_chunk(sid, 0, 0, &ciphertext).unwrap();

    assert!(decrypted.is_empty());
}

#[test]
fn nonce_deterministic() {
    let sid = test_uuid();
    let n1 = derive_nonce(sid, 1, 2);
    let n2 = derive_nonce(sid, 1, 2);
    assert_eq!(n1, n2);
}

#[test]
fn nonce_differs_on_any_input_change() {
    let sid = test_uuid();
    let sid2 = test_uuid2();
    let base = derive_nonce(sid, 0, 0);

    assert_ne!(base, derive_nonce(sid2, 0, 0));
    assert_ne!(base, derive_nonce(sid, 1, 0));
    assert_ne!(base, derive_nonce(sid, 0, 1));
}

#[test]
fn encryption_key_matters() {
    // Two different keys seal the same chunk differently: the seal wrapper
    // really keys the cipher rather than echoing its input.
    let mut key1 = [0u8; 32];
    let mut key2 = [0u8; 32];
    key1[0] = 1;
    key2[0] = 2;
    let sid = test_uuid();
    let c1 = TransferCrypto::new(&key1).encrypt_chunk(sid, 0, 0, b"payload").unwrap();
    let c2 = TransferCrypto::new(&key2).encrypt_chunk(sid, 0, 0, b"payload").unwrap();
    assert_ne!(c1, c2);
    assert_ne!(&c1[..7], b"payload");
}

#[test]
fn nonce_matches_blake3_derive_key() {
    // The nonce really is BLAKE3-derive-key over
    // `session_id ‖ file_id_be ‖ chunk_index_be`, truncated to 24 bytes.
    let sid = test_uuid();
    let mut material = Vec::new();
    material.extend_from_slice(&sid.to_be_bytes());
    material.extend_from_slice(&7u32.to_be_bytes());
    material.extend_from_slice(&9u32.to_be_bytes());
    let expected = blake3::derive_key("swarmdrop-transfer-nonce-v1", &material);
    assert_eq!(derive_nonce(sid, 7, 9), expected[..24]);
}
