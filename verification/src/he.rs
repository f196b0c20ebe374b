//! The encrypted-word algebra's error taxonomy and capability trait.

use vstd::prelude::*;

verus! {

/// Errors raised by the encrypted-word algebra.
#[derive(Debug, Clone)]
pub enum HeError {
    /// Key generation failed.
    KeyGenError,
    /// An encryption failed.
    EncryptError,
    /// A decryption failed, e.g. the ciphertext belongs to another key.
    DecryptError,
    /// An evaluation was handed malformed operands, e.g. operands that were
    /// encrypted under different keys.
    EvalError(String),
    /// The operation has no meaning for the plaintext type.
    UnsupportedOperation(String),
}

/// The capability a homomorphic encryption scheme offers: key generation,
/// encryption and decryption under the secret key, and evaluation on
/// ciphertexts alone.  The meaning of `add` and `mul` is fixed by each
/// implementation's own contract.
pub trait HomomorphicEncryption {
    /// Secret key, used by the client to encrypt and decrypt.
    type SecretKey;

    /// Evaluation key, usable by a server that never decrypts.
    type PublicKey;

    type Ciphertext;

    type Plaintext;

    /// Generate a matching (secret key, evaluation key) pair.
    fn keygen() -> Result<(Self::SecretKey, Self::PublicKey), HeError>;

    /// Encrypt a plaintext under the secret key.
    fn encrypt(sk: &Self::SecretKey, pt: &Self::Plaintext) -> Result<Self::Ciphertext, HeError>;

    /// Decrypt a ciphertext under the secret key.
    fn decrypt(sk: &Self::SecretKey, ct: &Self::Ciphertext) -> Result<Self::Plaintext, HeError>;

    /// The scheme's additive operation on ciphertexts.
    fn add(ct1: &Self::Ciphertext, ct2: &Self::Ciphertext) -> Result<Self::Ciphertext, HeError>;

    /// The scheme's multiplicative operation on ciphertexts.
    fn mul(ct1: &Self::Ciphertext, ct2: &Self::Ciphertext) -> Result<Self::Ciphertext, HeError>;
}

} // verus!
