use transciphering::aes::AesCipher;
use transciphering::camellia::CamelliaCipher;
use transciphering::symmetric::{SymmetricCipher, SymmetricError};

#[test]
fn test_aes_encrypt_decrypt_ok() {
    let key = AesCipher::keygen();
    let iv = [0u8; 16];
    let plaintext = b"Hello AES CBC with PKCS7!";

    let buffer = plaintext.to_vec();

    let ciphertext = AesCipher::encrypt(&key, &iv, &buffer).unwrap();
    assert_ne!(ciphertext, buffer);

    let decrypted = AesCipher::decrypt(&key, &iv, &ciphertext).unwrap();

    assert_eq!(decrypted, plaintext);
}

#[test]
fn test_decrypt_with_wrong_key() {
    let key = AesCipher::keygen();
    let iv = [0u8; 16];
    let plaintext = b"SecretMessage";

    let buffer = plaintext.to_vec();

    let ciphertext = AesCipher::encrypt(&key, &iv, &buffer).unwrap();

    let wrong_key = AesCipher::keygen();
    let result = AesCipher::decrypt(&wrong_key, &iv, &ciphertext);

    assert!(matches!(result, Err(SymmetricError::DecryptError(_))));
}

#[test]
fn test_decrypt_with_wrong_iv() {
    let key = AesCipher::keygen();
    let iv = [0u8; 16];
    let plaintext = b"AnotherSecret";

    let buffer = plaintext.to_vec();

    let ciphertext = AesCipher::encrypt(&key, &iv, &buffer).unwrap();

    let mut bad_iv = [0u8; 16];
    bad_iv[0] = 42;

    let result = AesCipher::decrypt(&key, &bad_iv, &ciphertext).unwrap();

    assert_ne!(buffer, result);
}

#[test]
fn test_camellia_encrypt_decrypt_ok() {
    let key = CamelliaCipher::keygen();
    let iv = [0u8; 16];
    let plaintext = b"Hello Camellia CBC with PKCS7!";

    let buffer = plaintext.to_vec();

    let ciphertext = CamelliaCipher::encrypt(&key, &iv, &buffer).unwrap();
    assert_ne!(ciphertext, buffer);

    let decrypted = CamelliaCipher::decrypt(&key, &iv, &ciphertext).unwrap();
    assert_eq!(decrypted, plaintext);
}

#[test]
fn test_camellia_decrypt_with_wrong_key() {
    let key = CamelliaCipher::keygen();
    let iv = [0u8; 16];
    let plaintext = b"SecretCamelliaMsg";

    let mut buffer = plaintext.to_vec();
    buffer.resize(buffer.len() + 16, 0u8);

    let ciphertext = CamelliaCipher::encrypt(&key, &iv, &buffer).unwrap();

    let wrong_key = CamelliaCipher::keygen();
    let result = CamelliaCipher::decrypt(&wrong_key, &iv, &ciphertext);

    assert!(matches!(result, Err(SymmetricError::DecryptError(_))));
}

#[test]
fn test_camellia_decrypt_with_wrong_iv() {
    let key = CamelliaCipher::keygen();
    let iv = [0u8; 16];
    let plaintext = b"AnotherCamelliaMsg";

    let mut buffer = plaintext.to_vec();
    buffer.resize(buffer.len() + 16, 0u8);

    let ciphertext = CamelliaCipher::encrypt(&key, &iv, &buffer).unwrap();

    let mut bad_iv = [0u8; 16];
    bad_iv[0] = 42;

    let result = CamelliaCipher::decrypt(&key, &bad_iv, &ciphertext);
    assert_ne!(result.unwrap_or_default(), plaintext);
}
