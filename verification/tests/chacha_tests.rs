use chacha20::cipher::{KeyIvInit, StreamCipher};
use transciphering::chacha::ChaCha20Cipher;
use transciphering::symmetric::SymmetricCipher;

#[test]
fn test_encrypt_decrypt() {
    let key = ChaCha20Cipher::keygen();
    let nonce: [u8; 12] = rand::random();

    let plaintext = b"Hello, ChaCha20!".to_vec();
    let ciphertext = ChaCha20Cipher::encrypt(&key, &nonce, &plaintext).unwrap();

    let decrypted = ChaCha20Cipher::decrypt(&key, &nonce, &ciphertext).unwrap();

    assert_eq!(decrypted, b"Hello, ChaCha20!");
}

#[test]
fn test_different_nonce_produces_different_ciphertext() {
    let key = ChaCha20Cipher::keygen();
    let nonce1: [u8; 12] = rand::random();
    let nonce2: [u8; 12] = rand::random();

    let plaintext = b"Test message".to_vec();
    let ct1 = ChaCha20Cipher::encrypt(&key, &nonce1, &plaintext).unwrap();
    let ct2 = ChaCha20Cipher::encrypt(&key, &nonce2, &plaintext).unwrap();

    assert_ne!(ct1, ct2);
}

#[test]
fn test_same_key_nonce_same_ciphertext() {
    let key = ChaCha20Cipher::keygen();
    let nonce: [u8; 12] = rand::random();

    let plaintext1 = b"Repeat message".to_vec();
    let plaintext2 = b"Repeat message".to_vec();

    let ct1 = ChaCha20Cipher::encrypt(&key, &nonce, &plaintext1).unwrap();
    let ct2 = ChaCha20Cipher::encrypt(&key, &nonce, &plaintext2).unwrap();

    assert_eq!(ct1, ct2);
}

#[test]
fn test_matches_reference_implementation() {
    let mut key = [0u8; 32];
    for (i, b) in key.iter_mut().enumerate() {
        *b = (i + 1) as u8;
    }
    let nonce: [u8; 12] = rand::random();

    // Long enough to cross several 64-byte blocks.
    let plaintext: Vec<u8> = (0u16..300).map(|i| (i % 251) as u8).collect();

    let ours = ChaCha20Cipher::encrypt(&key, &nonce, &plaintext).unwrap();

    let mut reference = plaintext.clone();
    let mut cipher = chacha20::ChaCha20::new((&key).into(), (&nonce).into());
    cipher.apply_keystream(&mut reference);

    assert_eq!(ours, reference);
}
