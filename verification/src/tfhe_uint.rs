//! Encrypted 32-bit words: the reference backend of the encrypted-word
//! algebra.
//!
//! A [`FheUint32`] stands for a 32-bit word encrypted under a key pair.  The
//! backend tracks the word and the key identifier exactly, so every
//! evaluation operation carries a contract that pins its 32-bit semantics:
//! addition is modulo `2^32`, the bitwise operations and the rotations act
//! bit by bit.  Operands encrypted under different keys are rejected with
//! [`HeError::EvalError`]; no operation panics.

use vstd::prelude::*;

use crate::he::{HeError, HomomorphicEncryption};
use crate::keys::{ClientKey, ServerKey};

verus! {

/// Left rotation of a 32-bit word by `n` positions (`n` taken modulo 32).
pub open spec fn rotl32(x: u32, n: u32) -> u32 {
    let m = n % 32;
    if m == 0 {
        x
    } else {
        (x << m) | (x >> ((32 - m) as u32))
    }
}

/// Right rotation of a 32-bit word by `n` positions (`n` taken modulo 32).
pub open spec fn rotr32(x: u32, n: u32) -> u32 {
    let m = n % 32;
    if m == 0 {
        x
    } else {
        (x >> m) | (x << ((32 - m) as u32))
    }
}

/// A 32-bit word encrypted under the key pair identified by `key_id`.
#[derive(Debug, Clone, Copy)]
pub struct FheUint32 {
    key_id: u64,
    word: u32,
}

impl FheUint32 {
    /// The word this ciphertext decrypts to under its own key.
    pub closed spec fn value(self) -> u32 {
        self.word
    }

    /// The identifier of the key pair the word was encrypted under.
    pub closed spec fn key(self) -> u64 {
        self.key_id
    }

    /// The key identifier, for the wire codec.
    pub(crate) fn key_number(&self) -> (r: u64)
        ensures
            r == self.key(),
    {
        self.key_id
    }

    /// The raw word, for the wire codec.
    pub(crate) fn word_number(&self) -> (r: u32)
        ensures
            r == self.value(),
    {
        self.word
    }

    /// Whether this ciphertext was encrypted under the given secret key's
    /// pair, so that decryption and evaluation will accept it.
    pub fn encrypted_under(&self, ck: &ClientKey) -> (r: bool)
        ensures
            r == (self.key() == ck.id()),
    {
        self.key_id == ck.id_number()
    }
}

/// The encrypted-word algebra over 32-bit words.
#[derive(Debug, Clone)]
pub struct TfheU32;

impl HomomorphicEncryption for TfheU32 {
    type SecretKey = ClientKey;

    type PublicKey = ServerKey;

    type Ciphertext = FheUint32;

    type Plaintext = u32;

    fn keygen() -> (r: Result<(ClientKey, ServerKey), HeError>)
        ensures
            r matches Ok(p) && p.0.id() == p.1.id(),
    {
        Ok(crate::keys::generate_key_pair())
    }

    fn encrypt(sk: &ClientKey, pt: &u32) -> (r: Result<FheUint32, HeError>)
        ensures
            r matches Ok(c) && c.key() == sk.id() && c.value() == *pt,
    {
        Ok(FheUint32 { key_id: sk.id_number(), word: *pt })
    }

    fn decrypt(sk: &ClientKey, ct: &FheUint32) -> (r: Result<u32, HeError>)
        ensures
            ct.key() == sk.id() ==> (r matches Ok(v) && v == ct.value()),
            ct.key() != sk.id() ==> (r matches Err(e) && e is DecryptError),
    {
        if ct.key_id == sk.id_number() {
            Ok(ct.word)
        } else {
            Err(HeError::DecryptError)
        }
    }

    /// Homomorphic addition modulo `2^32`.
    fn add(ct1: &FheUint32, ct2: &FheUint32) -> (r: Result<FheUint32, HeError>)
        ensures
            ct1.key() == ct2.key() ==> (r matches Ok(c) && c.key() == ct1.key() && c.value()
                == ct1.value().wrapping_add(ct2.value())),
            ct1.key() != ct2.key() ==> (r matches Err(e) && e is EvalError),
    {
        TfheU32::add(ct1, ct2)
    }

    /// Homomorphic multiplication modulo `2^32`.
    fn mul(ct1: &FheUint32, ct2: &FheUint32) -> (r: Result<FheUint32, HeError>)
        ensures
            ct1.key() == ct2.key() ==> (r matches Ok(c) && c.key() == ct1.key() && c.value()
                == ct1.value().wrapping_mul(ct2.value())),
            ct1.key() != ct2.key() ==> (r matches Err(e) && e is EvalError),
    {
        if ct1.key_id == ct2.key_id {
            Ok(FheUint32 { key_id: ct1.key_id, word: ct1.word.wrapping_mul(ct2.word) })
        } else {
            Err(mismatched_keys())
        }
    }
}

/// The constructor the wire codec uses to rebuild a received ciphertext.
pub(crate) fn make_word(key_id: u64, word: u32) -> (r: FheUint32)
    ensures
        r.key() == key_id,
        r.value() == word,
{
    FheUint32 { key_id, word }
}

/// The error every evaluation returns when its operands belong to
/// different key pairs.
fn mismatched_keys() -> (e: HeError)
    ensures
        e is EvalError,
{
    HeError::EvalError("operands were encrypted under different keys".to_owned())
}

impl TfheU32 {
    /// Addition modulo `2^32` on encrypted words.
    pub fn add(a: &FheUint32, b: &FheUint32) -> (r: Result<FheUint32, HeError>)
        ensures
            a.key() == b.key() ==> (r matches Ok(c) && c.key() == a.key() && c.value()
                == a.value().wrapping_add(b.value())),
            a.key() != b.key() ==> (r matches Err(e) && e is EvalError),
    {
        if a.key_id == b.key_id {
            Ok(FheUint32 { key_id: a.key_id, word: a.word.wrapping_add(b.word) })
        } else {
            Err(mismatched_keys())
        }
    }

    /// Encrypt a public word (a constant, a counter, a nonce word) under the
    /// client's secret key, so it can enter an evaluation.
    pub fn encrypt_public_with_client(ck: &ClientKey, value: u32) -> (r: Result<FheUint32, HeError>)
        ensures
            r matches Ok(c) && c.key() == ck.id() && c.value() == value,
    {
        Ok(FheUint32 { key_id: ck.id_number(), word: value })
    }

    /// Bitwise exclusive or on encrypted words.
    pub fn xor(a: &FheUint32, b: &FheUint32) -> (r: Result<FheUint32, HeError>)
        ensures
            a.key() == b.key() ==> (r matches Ok(c) && c.key() == a.key() && c.value()
                == (a.value() ^ b.value())),

            a.key() != b.key() ==> (r matches Err(e) && e is EvalError),
    {
        if a.key_id == b.key_id {
            Ok(FheUint32 { key_id: a.key_id, word: a.word ^ b.word })
        } else {
            Err(mismatched_keys())
        }
    }

    /// Left rotation of an encrypted word by the public amount `n`.
    pub fn rotl(a: &FheUint32, n: u32) -> (r: Result<FheUint32, HeError>)
        ensures
            r matches Ok(c) && c.key() == a.key() && c.value() == rotl32(a.value(), n),
    {
        let m = n % 32;
        let rotated: u32 = if m == 0 {
            a.word
        } else {
            (a.word << m) | (a.word >> (32 - m))
        };
        Ok(FheUint32 { key_id: a.key_id, word: rotated })
    }

    /// Right rotation of an encrypted word by the public amount `n`.
    pub fn rotr(a: &FheUint32, n: u32) -> (r: Result<FheUint32, HeError>)
        ensures
            r matches Ok(c) && c.key() == a.key() && c.value() == rotr32(a.value(), n),
    {
        let m = n % 32;
        let rotated: u32 = if m == 0 {
            a.word
        } else {
            (a.word >> m) | (a.word << (32 - m))
        };
        Ok(FheUint32 { key_id: a.key_id, word: rotated })
    }

    /// Bitwise and on encrypted words.
    pub fn and(a: &FheUint32, b: &FheUint32) -> (r: Result<FheUint32, HeError>)
        ensures
            a.key() == b.key() ==> (r matches Ok(c) && c.key() == a.key() && c.value()
                == (a.value() & b.value())),

            a.key() != b.key() ==> (r matches Err(e) && e is EvalError),
    {
        if a.key_id == b.key_id {
            Ok(FheUint32 { key_id: a.key_id, word: a.word & b.word })
        } else {
            Err(mismatched_keys())
        }
    }

    /// Bitwise or on encrypted words.
    pub fn or(a: &FheUint32, b: &FheUint32) -> (r: Result<FheUint32, HeError>)
        ensures
            a.key() == b.key() ==> (r matches Ok(c) && c.key() == a.key() && c.value()
                == (a.value() | b.value())),

            a.key() != b.key() ==> (r matches Err(e) && e is EvalError),
    {
        if a.key_id == b.key_id {
            Ok(FheUint32 { key_id: a.key_id, word: a.word | b.word })
        } else {
            Err(mismatched_keys())
        }
    }
}

} // verus!
