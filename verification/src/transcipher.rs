//! Transciphering: converting data encrypted under a fast symmetric cipher
//! into data encrypted under a homomorphic scheme, without revealing the
//! plaintext.
//!
//! A client encrypts its payload with the symmetric cipher and re-encrypts
//! the symmetric key word by word under the homomorphic scheme.  The holder
//! of the homomorphic secret key can recover the symmetric key and decrypt
//! conventionally (key-recombination mode); a server holding only ciphertexts
//! can instead evaluate the cipher's keystream homomorphically
//! (blind-evaluation mode).

use vstd::prelude::*;

use crate::he::HomomorphicEncryption;
use crate::symmetric::SymmetricCipher;

verus! {

/// The two halves of the key-recombination mode, generic over the symmetric
/// cipher and the homomorphic scheme.
pub trait Transcipher<Sym, He> where Sym: SymmetricCipher, He: HomomorphicEncryption {
    /// Encrypt the plaintext with the symmetric cipher and the symmetric key
    /// word by word with the homomorphic scheme.
    fn transcipher_encrypt(
        sym_key: &Sym::Key,
        sym_nonce: &Sym::Nonce,
        he_sk: &He::SecretKey,
        plaintext: &[u8],
    ) -> Result<(Vec<u8>, Vec<He::Ciphertext>), TranscipherError>;

    /// Recover the symmetric key from its homomorphic ciphertexts and
    /// decrypt the payload with it.
    fn transcipher_decrypt(
        sym_nonce: &Sym::Nonce,
        he_sk: &He::SecretKey,
        sym_key_cts: &Vec<He::Ciphertext>,
        ciphertext: &[u8],
    ) -> Result<Vec<u8>, TranscipherError>;
}

/// Protocol-level errors, each wrapping one collaborating component.
#[derive(Debug, Clone, Copy, PartialEq, Eq, Structural)]
pub enum TranscipherError {
    /// The symmetric cipher failed or its input was malformed.
    SymmetricError,
    /// The homomorphic algebra failed or its input was malformed.
    HeError,
}

} // verus!
