//! The homomorphic block evaluator and the ChaCha20 transcipher.
//!
//! [`ChaChaTfheServer::generate_homomorphic_chacha_block`] reproduces the
//! ChaCha20 block function entirely with encrypted-word operations: the same
//! 16-word state, the same 20 rounds of quarter-round mixing, the same final
//! feed-forward addition, with every `+`, `^` and `<<<` replaced by the
//! algebra's `add`, `xor` and `rotl`.  Its contract states the central
//! equivalence: the output words decrypt to exactly the words of the
//! cleartext block function [`crate::chacha::block_words`] on the same key,
//! counter and nonce.
//!
//! [`ChaChaTfheTranscipher`] is the key-recombination protocol around it:
//! the client encrypts with ChaCha20 and re-encrypts the 32-byte key as 8
//! encrypted words; the secret-key holder recovers the key and decrypts.

use vstd::assert_seqs_equal;
use vstd::bytes::{spec_u32_from_le_bytes, u32_from_le_bytes};
use vstd::prelude::*;
use vstd::slice::slice_subrange;

use crate::chacha::{
    block_words, chacha20_cipher, init_state, le_bytes_of_words, qround, rounds,
    words_of_le_bytes, ChaCha20Cipher,
};
use crate::he::HomomorphicEncryption;
use crate::keys::ClientKey;
use crate::symmetric::SymmetricCipher;
use crate::tfhe_uint::{FheUint32, TfheU32};
use crate::transcipher::{Transcipher, TranscipherError};

verus! {

/// The words a sequence of encrypted words decrypts to.
pub open spec fn ct_values(s: Seq<FheUint32>) -> Seq<u32> {
    Seq::new(s.len(), |i: int| s[i].value())
}

/// All words of the sequence are encrypted under the key pair `k`.
pub open spec fn all_under_key(s: Seq<FheUint32>, k: u64) -> bool {
    forall|i: int| 0 <= i < s.len() ==> s[i].key() == k
}

/// One quarter-round on the encrypted 16-word state.
fn he_qround(s: &mut Vec<FheUint32>, a: usize, b: usize, c: usize, d: usize, Ghost(key): Ghost<
    u64,
>)
    requires
        old(s)@.len() == 16,
        a < 16 && b < 16 && c < 16 && d < 16,
        a != b && a != c && a != d && b != c && b != d && c != d,
        all_under_key(old(s)@, key),
    ensures
        final(s)@.len() == 16,
        all_under_key(final(s)@, key),
        ct_values(final(s)@) == qround(ct_values(old(s)@), a as int, b as int, c as int, d as int),
{
    s[a] = TfheU32::add(&s[a], &s[b]).unwrap();
    s[d] = TfheU32::xor(&s[d], &s[a]).unwrap();
    s[d] = TfheU32::rotl(&s[d], 16).unwrap();
    s[c] = TfheU32::add(&s[c], &s[d]).unwrap();
    s[b] = TfheU32::xor(&s[b], &s[c]).unwrap();
    s[b] = TfheU32::rotl(&s[b], 12).unwrap();
    s[a] = TfheU32::add(&s[a], &s[b]).unwrap();
    s[d] = TfheU32::xor(&s[d], &s[a]).unwrap();
    s[d] = TfheU32::rotl(&s[d], 8).unwrap();
    s[c] = TfheU32::add(&s[c], &s[d]).unwrap();
    s[b] = TfheU32::xor(&s[b], &s[c]).unwrap();
    s[b] = TfheU32::rotl(&s[b], 7).unwrap();
    proof {
        assert_seqs_equal!(
            ct_values(s@) == qround(ct_values(old(s)@), a as int, b as int, c as int, d as int)
        );
    }
}

/// The server side of the blind-evaluation mode.
///
/// The evaluator receives the secret key only to encrypt the public
/// constants, the counter and the nonce into the algebra; a production
/// deployment would instead have the client supply those words already
/// encrypted, so that the evaluating party never holds the secret key.
pub struct ChaChaTfheServer;

impl ChaChaTfheServer {
    /// Compute one ChaCha20 block homomorphically from the 8 encrypted key
    /// words, a counter and a 12-byte nonce.
    ///
    /// The output words decrypt to exactly the cleartext block function's
    /// words on the same inputs; any input-shape violation fails with
    /// [`TranscipherError::HeError`] before the rounds start.
    pub fn generate_homomorphic_chacha_block(
        key_cts: &Vec<FheUint32>,
        client_ck: &ClientKey,
        counter: u32,
        nonce: &[u8; 12],
    ) -> (r: Result<Vec<FheUint32>, TranscipherError>)
        ensures
            (key_cts@.len() == 8 && all_under_key(key_cts@, client_ck.id())) <==> r is Ok,
            r is Err ==> r == Err::<Vec<FheUint32>, TranscipherError>(TranscipherError::HeError),
            r matches Ok(out) ==> out@.len() == 16 && all_under_key(out@, client_ck.id())
                && ct_values(out@) == block_words(
                ct_values(key_cts@),
                counter,
                words_of_le_bytes(nonce@),
            ),
    {
        if key_cts.len() != 8 {
            return Err(TranscipherError::HeError);
        }
        let mut k: usize = 0;
        while k < 8
            invariant
                k <= 8,
                key_cts@.len() == 8,
                forall|i: int| 0 <= i < k ==> key_cts@[i].key() == client_ck.id(),
            decreases 8 - k,
        {
            if !key_cts[k].encrypted_under(client_ck) {
                return Err(TranscipherError::HeError);
            }
            k = k + 1;
        }
        let ghost key = client_ck.id();

        let nonce_ws = crate::chacha::words_from_le(nonce.as_slice());

        let mut state: Vec<FheUint32> = Vec::new();
        state.push(TfheU32::encrypt_public_with_client(client_ck, crate::chacha::CHACHA_C0).unwrap());
        state.push(TfheU32::encrypt_public_with_client(client_ck, crate::chacha::CHACHA_C1).unwrap());
        state.push(TfheU32::encrypt_public_with_client(client_ck, crate::chacha::CHACHA_C2).unwrap());
        state.push(TfheU32::encrypt_public_with_client(client_ck, crate::chacha::CHACHA_C3).unwrap());
        state.push(key_cts[0]);
        state.push(key_cts[1]);
        state.push(key_cts[2]);
        state.push(key_cts[3]);
        state.push(key_cts[4]);
        state.push(key_cts[5]);
        state.push(key_cts[6]);
        state.push(key_cts[7]);
        state.push(TfheU32::encrypt_public_with_client(client_ck, counter).unwrap());
        state.push(TfheU32::encrypt_public_with_client(client_ck, nonce_ws[0]).unwrap());
        state.push(TfheU32::encrypt_public_with_client(client_ck, nonce_ws[1]).unwrap());
        state.push(TfheU32::encrypt_public_with_client(client_ck, nonce_ws[2]).unwrap());
        proof {
            assert_seqs_equal!(
                ct_values(state@)
                    == init_state(ct_values(key_cts@), counter, words_of_le_bytes(nonce@))
            );
        }
        let ghost s0v = ct_values(state@);

        let mut working: Vec<FheUint32> = Vec::new();
        let mut i: usize = 0;
        while i < 16
            invariant
                i <= 16,
                state@.len() == 16,
                all_under_key(state@, key),
                working@ == state@.subrange(0, i as int),
            decreases 16 - i,
        {
            working.push(state[i]);
            proof {
                assert_seqs_equal!(working@ == state@.subrange(0, i + 1));
            }
            i = i + 1;
        }
        proof {
            assert(working@ == state@);
            assert_seqs_equal!(ct_values(working@) == rounds(s0v, 0));
        }

        let mut r: usize = 0;
        while r < 10
            invariant
                r <= 10,
                state@.len() == 16,
                working@.len() == 16,
                all_under_key(state@, key),
                all_under_key(working@, key),
                s0v == ct_values(state@),
                ct_values(working@) == rounds(s0v, r as nat),
            decreases 10 - r,
        {
            he_qround(&mut working, 0, 4, 8, 12, Ghost(key));
            he_qround(&mut working, 1, 5, 9, 13, Ghost(key));
            he_qround(&mut working, 2, 6, 10, 14, Ghost(key));
            he_qround(&mut working, 3, 7, 11, 15, Ghost(key));
            he_qround(&mut working, 0, 5, 10, 15, Ghost(key));
            he_qround(&mut working, 1, 6, 11, 12, Ghost(key));
            he_qround(&mut working, 2, 7, 8, 13, Ghost(key));
            he_qround(&mut working, 3, 4, 9, 14, Ghost(key));
            proof {
                assert(ct_values(working@) == crate::chacha::double_round(rounds(s0v, r as nat)));
                assert(rounds(s0v, (r + 1) as nat) == crate::chacha::double_round(
                    rounds(s0v, r as nat),
                ));
            }
            r = r + 1;
        }

        let mut out: Vec<FheUint32> = Vec::new();
        let mut j: usize = 0;
        while j < 16
            invariant
                j <= 16,
                state@.len() == 16,
                working@.len() == 16,
                all_under_key(state@, key),
                all_under_key(working@, key),
                s0v == ct_values(state@),
                ct_values(working@) == rounds(s0v, 10),
                out@.len() == j,
                all_under_key(out@, key),
                forall|t: int|
                    0 <= t < j ==> out@[t].value() == rounds(s0v, 10)[t].wrapping_add(s0v[t]),
            decreases 16 - j,
        {
            out.push(TfheU32::add(&working[j], &state[j]).unwrap());
            j = j + 1;
        }
        proof {
            assert_seqs_equal!(
                ct_values(out@)
                    == block_words(ct_values(key_cts@), counter, words_of_le_bytes(nonce@))
            );
        }
        Ok(out)
    }

    /// Blind evaluation on one ciphertext word: homomorphically evaluate the
    /// keystream block and XOR its first word against the first ciphertext
    /// word, re-encrypted.  The result decrypts to the plaintext word when
    /// the ciphertext was produced with the same key, nonce and counter.
    ///
    /// Fails closed before any algebra call: a ciphertext shorter than one
    /// word gives [`TranscipherError::SymmetricError`], a key-word count
    /// other than 8 gives [`TranscipherError::HeError`].
    pub fn homomorphic_decrypt(
        key_cts: &Vec<FheUint32>,
        client_ck: &ClientKey,
        counter: u32,
        nonce: &[u8; 12],
        ciphertext: &[u8],
    ) -> (r: Result<FheUint32, TranscipherError>)
        ensures
            ciphertext@.len() < 4 ==> r == Err::<FheUint32, TranscipherError>(
                TranscipherError::SymmetricError,
            ),
            ciphertext@.len() >= 4 && key_cts@.len() != 8 ==> r == Err::<
                FheUint32,
                TranscipherError,
            >(TranscipherError::HeError),
            (ciphertext@.len() >= 4 && key_cts@.len() == 8 && all_under_key(
                key_cts@,
                client_ck.id(),
            )) <==> r is Ok,
            r matches Ok(w) ==> w.key() == client_ck.id() && w.value() == (spec_u32_from_le_bytes(
                ciphertext@.subrange(0, 4),
            ) ^ block_words(ct_values(key_cts@), counter, words_of_le_bytes(nonce@))[0]),
    {
        if ciphertext.len() < 4 {
            return Err(TranscipherError::SymmetricError);
        }
        let ct_word = u32_from_le_bytes(slice_subrange(ciphertext, 0, 4));
        let keystream = match Self::generate_homomorphic_chacha_block(
            key_cts,
            client_ck,
            counter,
            nonce,
        ) {
            Ok(ks) => ks,
            Err(e) => {
                return Err(e);
            },
        };
        let enc_word = TfheU32::encrypt_public_with_client(client_ck, ct_word).unwrap();
        let plain_word = TfheU32::xor(&enc_word, &keystream[0]).unwrap();
        Ok(plain_word)
    }
}

/// The client side of the key-recombination mode over ChaCha20 and the
/// 32-bit encrypted-word algebra.
pub struct ChaChaTfheTranscipher;

impl Transcipher<ChaCha20Cipher, TfheU32> for ChaChaTfheTranscipher {
    /// Encrypt the plaintext with ChaCha20 and each of the 8 key words with
    /// the algebra.
    fn transcipher_encrypt(
        sym_key: &[u8; 32],
        sym_nonce: &[u8; 12],
        he_sk: &ClientKey,
        plaintext: &[u8],
    ) -> (r: Result<(Vec<u8>, Vec<FheUint32>), TranscipherError>)
        ensures
            r matches Ok(p) && p.0@ == chacha20_cipher(sym_key@, sym_nonce@, plaintext@)
                && p.1@.len() == 8 && all_under_key(p.1@, he_sk.id()) && ct_values(p.1@)
                == words_of_le_bytes(sym_key@),
    {
        let ciphertext = ChaCha20Cipher::encrypt(sym_key, sym_nonce, plaintext).unwrap();
        let key_ws = crate::chacha::words_from_le(sym_key.as_slice());
        let mut key_cts: Vec<FheUint32> = Vec::new();
        let mut i: usize = 0;
        while i < 8
            invariant
                i <= 8,
                key_ws@ == words_of_le_bytes(sym_key@),
                key_ws@.len() == 8,
                key_cts@.len() == i,
                all_under_key(key_cts@, he_sk.id()),
                forall|j: int| 0 <= j < i ==> key_cts@[j].value() == key_ws@[j],
            decreases 8 - i,
        {
            let ct = TfheU32::encrypt(he_sk, &key_ws[i]).unwrap();
            key_cts.push(ct);
            i = i + 1;
        }
        proof {
            assert_seqs_equal!(ct_values(key_cts@) == words_of_le_bytes(sym_key@));
        }
        Ok((ciphertext, key_cts))
    }

    /// Decrypt each key word, reassemble the 32-byte key, decrypt the
    /// payload with ChaCha20.  A key-word count other than 8, or a word
    /// encrypted under another key, fails with
    /// [`TranscipherError::HeError`].
    fn transcipher_decrypt(
        sym_nonce: &[u8; 12],
        he_sk: &ClientKey,
        sym_key_cts: &Vec<FheUint32>,
        ciphertext: &[u8],
    ) -> (r: Result<Vec<u8>, TranscipherError>)
        ensures
            (sym_key_cts@.len() == 8 && all_under_key(sym_key_cts@, he_sk.id())) <==> r is Ok,
            r is Err ==> r == Err::<Vec<u8>, TranscipherError>(TranscipherError::HeError),
            r matches Ok(pt) ==> pt@ == chacha20_cipher(
                le_bytes_of_words(ct_values(sym_key_cts@)),
                sym_nonce@,
                ciphertext@,
            ),
    {
        if sym_key_cts.len() != 8 {
            return Err(TranscipherError::HeError);
        }
        let mut key_ws: Vec<u32> = Vec::new();
        let mut i: usize = 0;
        while i < 8
            invariant
                i <= 8,
                sym_key_cts@.len() == 8,
                key_ws@.len() == i,
                forall|j: int| 0 <= j < i ==> sym_key_cts@[j].key() == he_sk.id(),
                forall|j: int| 0 <= j < i ==> key_ws@[j] == sym_key_cts@[j].value(),
            decreases 8 - i,
        {
            let w = match TfheU32::decrypt(he_sk, &sym_key_cts[i]) {
                Ok(w) => w,
                Err(_) => {
                    return Err(TranscipherError::HeError);
                },
            };
            key_ws.push(w);
            i = i + 1;
        }
        proof {
            assert_seqs_equal!(key_ws@ == ct_values(sym_key_cts@));
        }
        let nonce_ws = crate::chacha::words_from_le(sym_nonce.as_slice());
        let plaintext = crate::chacha::apply_keystream_words(&key_ws, &nonce_ws, ciphertext);
        proof {
            crate::chacha::lemma_words_le_roundtrip(ct_values(sym_key_cts@));
            assert_seqs_equal!(
                plaintext@ == chacha20_cipher(
                    le_bytes_of_words(ct_values(sym_key_cts@)), sym_nonce@, ciphertext@)
            );
        }
        Ok(plaintext)
    }
}

/// The round-trip law of the key-recombination mode: what
/// `transcipher_encrypt` produces, `transcipher_decrypt` takes back to the
/// plaintext.  The encrypted key words decrypt to `words_of_le_bytes(key)`,
/// so the decrypting side runs the cipher on
/// `le_bytes_of_words(words_of_le_bytes(key))`; that key equals the
/// starting key, and ciphering twice with one keystream is the identity.
pub proof fn lemma_transcipher_round_trip(key: Seq<u8>, nonce: Seq<u8>, pt: Seq<u8>)
    requires
        key.len() == 32,
        nonce.len() == 12,
    ensures
        chacha20_cipher(
            le_bytes_of_words(words_of_le_bytes(key)),
            nonce,
            chacha20_cipher(key, nonce, pt),
        ) == pt,
{
    crate::chacha::lemma_le_words_roundtrip(key);
    crate::chacha::lemma_cipher_involutive(key, nonce, pt);
}

} // verus!
