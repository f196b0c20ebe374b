//! The symmetric-cipher capability: key generation and byte-buffer
//! encryption and decryption under a fixed-size key and nonce.

use vstd::prelude::*;

verus! {

/// A symmetric cipher over byte buffers.
pub trait SymmetricCipher {
    type Key;

    type Nonce;

    /// Draw a fresh random key.
    fn keygen() -> Self::Key;

    /// Encrypt a byte buffer.
    fn encrypt(key: &Self::Key, nonce: &Self::Nonce, plaintext: &[u8]) -> Result<
        Vec<u8>,
        SymmetricError,
    >;

    /// Decrypt a byte buffer.
    fn decrypt(key: &Self::Key, nonce: &Self::Nonce, ciphertext: &[u8]) -> Result<
        Vec<u8>,
        SymmetricError,
    >;
}

/// Errors of the symmetric ciphers.
#[derive(Debug, Clone)]
pub enum SymmetricError {
    /// A key or an initialisation vector had the wrong length.
    InvalidKeyIv,
    /// Encryption failed.
    EncryptError,
    /// Decryption failed; the payload describes how.
    DecryptError(String),
}

/// Relies on `rand::thread_rng` and `rand::RngCore::fill_bytes`: fills a
/// 32-byte key with random bytes.  Nothing is promised of the values.
#[verifier::external_body]
pub(crate) fn random_key_bytes() -> [u8; 32] {
    let mut key = [0u8; 32];
    rand::RngCore::fill_bytes(&mut rand::thread_rng(), &mut key);
    key
}

} // verus!
