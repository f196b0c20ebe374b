//! Anonymous voting tokens: the digest under which a token is stored.
//!
//! A token is never persisted in the clear; the application keys its record
//! by the lowercase hexadecimal spelling of the token's SHA-256 digest.
//! The digest itself comes from an outside crate; the hexadecimal spelling
//! is computed and verified here.

use vstd::prelude::*;

use crate::tfhe_string::{ascii_string_from_bytes, chars_of_bytes};

verus! {

/// The SHA-256 digest of a byte sequence.
pub uninterp spec fn sha256_of(data: Seq<u8>) -> Seq<u8>;

/// Relies on `sha2::Sha256` through `sha2::Digest::digest`: the digest is a
/// function of the input alone, 32 bytes long.
#[verifier::external_body]
fn sha256(data: &[u8]) -> (r: Vec<u8>)
    ensures
        r@ == sha256_of(data@),
        r@.len() == 32,
{
    let digest = <sha2::Sha256 as sha2::Digest>::digest(data);
    digest.to_vec()
}

/// The ASCII code of a nibble's lowercase hexadecimal digit.
pub open spec fn hex_code(n: u8) -> u8 {
    if n < 10 {
        (n + 48) as u8
    } else {
        (n + 87) as u8
    }
}

/// The ASCII codes of a byte sequence's lowercase hexadecimal spelling,
/// two digits per byte, high nibble first.
pub open spec fn hex_of(bytes: Seq<u8>) -> Seq<u8> {
    Seq::new(
        (bytes.len() * 2) as nat,
        |i: int|
            if i % 2 == 0 {
                hex_code(bytes[i / 2] >> 4)
            } else {
                hex_code(bytes[i / 2] & 15)
            },
    )
}

/// The lowercase hexadecimal spelling of a byte buffer.
pub fn to_hex(bytes: &[u8]) -> (r: String)
    ensures
        r@ == chars_of_bytes(hex_of(bytes@)),
{
    let mut codes: Vec<u8> = Vec::new();
    let mut i: usize = 0;
    while i < bytes.len()
        invariant
            i <= bytes@.len(),
            codes@.len() == 2 * i,
            forall|j: int| 0 <= j < codes@.len() ==> codes@[j] == hex_of(bytes@)[j],
        decreases bytes@.len() - i,
    {
        let b = bytes[i];
        let hi: u8 = b >> 4;
        let lo: u8 = b & 15;
        proof {
            assert(hi < 16 && lo < 16) by (bit_vector)
                requires
                    hi == b >> 4,
                    lo == b & 15,
            ;
        }
        codes.push(if hi < 10 {
            hi + 48
        } else {
            hi + 87
        });
        codes.push(if lo < 10 {
            lo + 48
        } else {
            lo + 87
        });
        proof {
            assert((2 * i as int) / 2 == i as int && (2 * i as int) % 2 == 0 && (2 * i as int + 1)
                / 2 == i as int && (2 * i as int + 1) % 2 == 1) by (nonlinear_arith);
        }
        i = i + 1;
    }
    proof {
        assert forall|j: int| 0 <= j < codes@.len() implies codes@[j] < 128 by {
            assert(0 <= j / 2 < bytes@.len()) by (nonlinear_arith)
                requires
                    0 <= j < 2 * bytes@.len(),
            ;
            let b = bytes@[j / 2];
            assert((b >> 4) < 16 && (b & 15) < 16) by (bit_vector);
        }
    }
    let s = ascii_string_from_bytes(&codes);
    proof {
        vstd::assert_seqs_equal!(s@ == chars_of_bytes(hex_of(bytes@)));
    }
    s
}

/// The key a token's record is stored under: the lowercase hexadecimal
/// spelling of the token's SHA-256 digest.
pub fn token_hash(token: &String) -> (r: String)
    ensures
        r@ == chars_of_bytes(hex_of(sha256_of(vstd::utf8::encode_utf8(token@)))),
{
    let bytes = vstd::string::StrSliceExecFns::as_bytes_vec(token.as_str());
    let digest = sha256(bytes.as_slice());
    to_hex(digest.as_slice())
}

} // verus!
