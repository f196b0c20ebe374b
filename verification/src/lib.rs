//! Transciphering between a fast ARX stream cipher and an encrypted-word
//! algebra.
//!
//! A client encrypts its data under ChaCha20 and hands the server the
//! ciphertext together with the cipher key re-encrypted word by word under a
//! homomorphic encrypted-word algebra.  The server can then evaluate the
//! ChaCha20 block function entirely inside the encrypted domain and combine
//! the result with the ciphertext without ever seeing the key or the
//! plaintext.  The algebra itself is modelled here by a reference backend
//! that tracks exact 32-bit semantics, so that the homomorphic evaluator can
//! be proved bit-for-bit equal to the cleartext cipher.

pub mod aes;
pub mod auth;
pub mod camellia;
pub mod chacha;
pub mod chacha_tfhe;
pub mod election;
pub mod he;
pub mod keys;
pub mod models;
pub mod symmetric;
pub mod tfhe_bool;
pub mod tfhe_string;
pub mod tfhe_uint;
pub mod transcipher;
pub mod wire;
pub mod zk;
