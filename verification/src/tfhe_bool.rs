//! Encrypted booleans: the reference backend of the boolean algebra.
//!
//! For booleans the scheme's additive operation is OR and its
//! multiplicative operation is AND.

use vstd::prelude::*;

use crate::he::{HeError, HomomorphicEncryption};
use crate::keys::{ClientKey, ServerKey};

verus! {

/// A boolean encrypted under the key pair identified by `key_id`.
#[derive(Debug, Clone, Copy)]
pub struct FheBool {
    key_id: u64,
    bit: bool,
}

impl FheBool {
    /// The boolean this ciphertext decrypts to under its own key.
    pub closed spec fn value(self) -> bool {
        self.bit
    }

    /// The identifier of the key pair the boolean was encrypted under.
    pub closed spec fn key(self) -> u64 {
        self.key_id
    }
}

/// The constructor the string backend uses for its encrypted flags.
pub(crate) fn make_fhe_bool(key_id: u64, bit: bool) -> (r: FheBool)
    ensures
        r.key() == key_id,
        r.value() == bit,
{
    FheBool { key_id, bit }
}

/// The encrypted-boolean algebra.
#[derive(Debug, Clone)]
pub struct TfheBool;

impl HomomorphicEncryption for TfheBool {
    type SecretKey = ClientKey;

    type PublicKey = ServerKey;

    type Ciphertext = FheBool;

    type Plaintext = bool;

    fn keygen() -> (r: Result<(ClientKey, ServerKey), HeError>)
        ensures
            r matches Ok(p) && p.0.id() == p.1.id(),
    {
        Ok(crate::keys::generate_key_pair())
    }

    fn encrypt(sk: &ClientKey, pt: &bool) -> (r: Result<FheBool, HeError>)
        ensures
            r matches Ok(c) && c.key() == sk.id() && c.value() == *pt,
    {
        Ok(FheBool { key_id: sk.id_number(), bit: *pt })
    }

    fn decrypt(sk: &ClientKey, ct: &FheBool) -> (r: Result<bool, HeError>)
        ensures
            ct.key() == sk.id() ==> (r matches Ok(v) && v == ct.value()),
            ct.key() != sk.id() ==> (r matches Err(e) && e is DecryptError),
    {
        if ct.key_id == sk.id_number() {
            Ok(ct.bit)
        } else {
            Err(HeError::DecryptError)
        }
    }

    /// Homomorphic OR on encrypted booleans.
    fn add(ct1: &FheBool, ct2: &FheBool) -> (r: Result<FheBool, HeError>)
        ensures
            ct1.key() == ct2.key() ==> (r matches Ok(c) && c.key() == ct1.key() && c.value() == (
            ct1.value() || ct2.value())),
            ct1.key() != ct2.key() ==> (r matches Err(e) && e is EvalError),
    {
        if ct1.key_id == ct2.key_id {
            Ok(FheBool { key_id: ct1.key_id, bit: ct1.bit || ct2.bit })
        } else {
            Err(HeError::EvalError("operands were encrypted under different keys".to_owned()))
        }
    }

    /// Homomorphic AND on encrypted booleans.
    fn mul(ct1: &FheBool, ct2: &FheBool) -> (r: Result<FheBool, HeError>)
        ensures
            ct1.key() == ct2.key() ==> (r matches Ok(c) && c.key() == ct1.key() && c.value() == (
            ct1.value() && ct2.value())),
            ct1.key() != ct2.key() ==> (r matches Err(e) && e is EvalError),
    {
        if ct1.key_id == ct2.key_id {
            Ok(FheBool { key_id: ct1.key_id, bit: ct1.bit && ct2.bit })
        } else {
            Err(HeError::EvalError("operands were encrypted under different keys".to_owned()))
        }
    }
}

} // verus!
