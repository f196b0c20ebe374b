//! Camellia-256 in CBC mode with PKCS7 padding, called through the
//! `camellia` and `cbc` crates.
//!
//! As with AES, the block cipher is an outside primitive; this module names
//! its results ([`camellia_cbc_enc`], [`camellia_cbc_dec`]) and states the
//! encrypt and decrypt contracts over those names.

use cbc::cipher::block_padding::Pkcs7;
use cbc::cipher::{BlockDecryptMut, BlockEncryptMut, KeyIvInit};
use vstd::prelude::*;

use crate::symmetric::{random_key_bytes, SymmetricCipher, SymmetricError};

verus! {

/// The ciphertext Camellia-256-CBC with PKCS7 padding produces for a key,
/// an initialisation vector and a message.
pub uninterp spec fn camellia_cbc_enc(key: Seq<u8>, iv: Seq<u8>, msg: Seq<u8>) -> Seq<u8>;

/// The plaintext Camellia-256-CBC with PKCS7 padding recovers from a
/// ciphertext, or nothing when the ciphertext's length or padding is
/// malformed.
pub uninterp spec fn camellia_cbc_dec(key: Seq<u8>, iv: Seq<u8>, ct: Seq<u8>) -> Option<Seq<u8>>;

/// Relies on `cbc::Encryptor::<camellia::Camellia256>` and
/// `cipher::BlockEncryptMut::encrypt_padded_vec_mut`: CBC encryption with
/// PKCS7 padding, a deterministic function of key, IV and message.
#[verifier::external_body]
fn camellia_cbc_encrypt_raw(key: &[u8; 32], iv: &[u8; 16], msg: &[u8]) -> (r: Vec<u8>)
    ensures
        r@ == camellia_cbc_enc(key@, iv@, msg@),
{
    let enc = cbc::Encryptor::<camellia::Camellia256>::new(key.into(), iv.into());
    enc.encrypt_padded_vec_mut::<Pkcs7>(msg)
}

/// Relies on `cbc::Decryptor::<camellia::Camellia256>` and
/// `cipher::BlockDecryptMut::decrypt_padded_vec_mut`: CBC decryption with
/// PKCS7 unpadding, a deterministic function of key, IV and ciphertext,
/// which fails exactly when the length or the padding is malformed.
#[verifier::external_body]
fn camellia_cbc_decrypt_raw(key: &[u8; 32], iv: &[u8; 16], ct: &[u8]) -> (r: Result<
    Vec<u8>,
    SymmetricError,
>)
    ensures
        r matches Ok(v) ==> camellia_cbc_dec(key@, iv@, ct@) == Some(v@),
        r matches Err(e) ==> camellia_cbc_dec(key@, iv@, ct@) is None && e is DecryptError,
{
    let dec = cbc::Decryptor::<camellia::Camellia256>::new(key.into(), iv.into());
    dec.decrypt_padded_vec_mut::<Pkcs7>(ct)
        .map_err(|e| SymmetricError::DecryptError(format!("{:?}", e)))
}

/// Camellia-256-CBC with PKCS7 padding: 32-byte key, 16-byte initialisation
/// vector.
pub struct CamelliaCipher;

impl SymmetricCipher for CamelliaCipher {
    type Key = [u8; 32];

    type Nonce = [u8; 16];

    fn keygen() -> [u8; 32] {
        random_key_bytes()
    }

    /// Encrypt with PKCS7 padding; never fails.
    fn encrypt(key: &[u8; 32], nonce: &[u8; 16], plaintext: &[u8]) -> (r: Result<
        Vec<u8>,
        SymmetricError,
    >)
        ensures
            r matches Ok(ct) && ct@ == camellia_cbc_enc(key@, nonce@, plaintext@),
    {
        Ok(camellia_cbc_encrypt_raw(key, nonce, plaintext))
    }

    /// Decrypt and remove the padding; fails with `DecryptError` exactly
    /// when the ciphertext's length or padding is malformed for this key
    /// and IV.
    fn decrypt(key: &[u8; 32], nonce: &[u8; 16], ciphertext: &[u8]) -> (r: Result<
        Vec<u8>,
        SymmetricError,
    >)
        ensures
            r matches Ok(pt) ==> camellia_cbc_dec(key@, nonce@, ciphertext@) == Some(pt@),
            r matches Err(e) ==> camellia_cbc_dec(key@, nonce@, ciphertext@) is None
                && e is DecryptError,
    {
        camellia_cbc_decrypt_raw(key, nonce, ciphertext)
    }
}

} // verus!
