//! Key material of the reference encrypted-word algebra.
//!
//! A key pair is identified by a number drawn at key generation.  A
//! ciphertext remembers the identifier of the key it was encrypted under;
//! decryption and evaluation check that the identifiers agree and fail
//! closed when they do not.

use vstd::prelude::*;

verus! {

/// Secret (client) key of the algebra.  Needed to encrypt and decrypt.
#[derive(Debug, Clone, Copy)]
pub struct ClientKey {
    key_id: u64,
}

/// Evaluation (server) key of the algebra, matching a secret key.
#[derive(Debug, Clone, Copy)]
pub struct ServerKey {
    key_id: u64,
}

impl ClientKey {
    /// The identifier of the key pair this key belongs to.
    pub closed spec fn id(self) -> u64 {
        self.key_id
    }

    /// The identifier as a number, for the backend's own bookkeeping.
    pub(crate) fn id_number(&self) -> (r: u64)
        ensures
            r == self.id(),
    {
        self.key_id
    }
}

impl ServerKey {
    /// The identifier of the key pair this key belongs to.
    pub closed spec fn id(self) -> u64 {
        self.key_id
    }
}

/// Relies on `rand::random`: draws a fresh identifier for a key pair.
/// Nothing is promised of the value.
#[verifier::external_body]
fn random_u64() -> u64 {
    rand::random::<u64>()
}

/// Generate a matching pair of secret and evaluation keys.
pub(crate) fn generate_key_pair() -> (r: (ClientKey, ServerKey))
    ensures
        r.0.id() == r.1.id(),
{
    let id = random_u64();
    (ClientKey { key_id: id }, ServerKey { key_id: id })
}

} // verus!
