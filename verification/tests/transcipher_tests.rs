use rand::RngCore;
use transciphering::chacha::ChaCha20Cipher;
use transciphering::chacha_tfhe::{ChaChaTfheServer, ChaChaTfheTranscipher};
use transciphering::he::HomomorphicEncryption;
use transciphering::symmetric::SymmetricCipher;
use transciphering::tfhe_uint::TfheU32;
use transciphering::transcipher::{Transcipher, TranscipherError};

#[test]
fn test_chacha_tfhe_full_roundtrip() {
    let sym_key = ChaCha20Cipher::keygen();
    let mut nonce = [0u8; 12];
    rand::thread_rng().fill_bytes(&mut nonce);

    let (client_key, _server_key) = TfheU32::keygen().unwrap();

    let plaintext = b"hello from client";
    let (ciphertext, key_cts) =
        ChaChaTfheTranscipher::transcipher_encrypt(&sym_key, &nonce, &client_key, plaintext)
            .expect("encrypt ok");

    let keystream_cts =
        ChaChaTfheServer::generate_homomorphic_chacha_block(&key_cts, &client_key, 1, &nonce)
            .expect("server ok");

    assert_eq!(keystream_cts.len(), 16);

    let decrypted =
        ChaChaTfheTranscipher::transcipher_decrypt(&nonce, &client_key, &key_cts, &ciphertext)
            .expect("decrypt ok");

    assert_eq!(decrypted, plaintext);
}

/// The core equivalence: each word of the homomorphically evaluated block
/// decrypts to the corresponding word of the cleartext block function.
#[test]
fn test_evaluator_matches_cleartext_block() {
    let mut sym_key = [0u8; 32];
    for (i, b) in sym_key.iter_mut().enumerate() {
        *b = (i + 1) as u8;
    }
    let nonce = [0u8; 12];
    let counter: u32 = 0;

    // The cleartext keystream block: encrypting 64 zero bytes yields the
    // keystream itself (counter starts at 0).
    let zeros = vec![0u8; 64];
    let keystream = ChaCha20Cipher::encrypt(&sym_key, &nonce, &zeros).unwrap();

    let (client_key, _server_key) = TfheU32::keygen().unwrap();
    let (_ct, key_cts) =
        ChaChaTfheTranscipher::transcipher_encrypt(&sym_key, &nonce, &client_key, b"")
            .expect("encrypt ok");

    let block_cts =
        ChaChaTfheServer::generate_homomorphic_chacha_block(&key_cts, &client_key, counter, &nonce)
            .expect("server ok");
    assert_eq!(block_cts.len(), 16);

    for (i, ct_word) in block_cts.iter().enumerate() {
        let word = TfheU32::decrypt(&client_key, ct_word).unwrap();
        let expected = u32::from_le_bytes([
            keystream[4 * i],
            keystream[4 * i + 1],
            keystream[4 * i + 2],
            keystream[4 * i + 3],
        ]);
        assert_eq!(word, expected);
    }
}

/// Concrete blind-evaluation scenario: key bytes 0x01..0x20, zero nonce,
/// counter 0, plaintext word 0xDEADBEEF.
#[test]
fn test_homomorphic_decrypt_concrete_scenario() {
    let mut sym_key = [0u8; 32];
    for (i, b) in sym_key.iter_mut().enumerate() {
        *b = (i + 1) as u8;
    }
    let nonce = [0u8; 12];
    let counter: u32 = 0;
    let plaintext_word: u32 = 0xDEAD_BEEF;

    let zeros = vec![0u8; 4];
    let keystream = ChaCha20Cipher::encrypt(&sym_key, &nonce, &zeros).unwrap();
    let keystream_word0 =
        u32::from_le_bytes([keystream[0], keystream[1], keystream[2], keystream[3]]);
    let ciphertext_word = plaintext_word ^ keystream_word0;

    let (client_key, _server_key) = TfheU32::keygen().unwrap();
    let (_ct, key_cts) =
        ChaChaTfheTranscipher::transcipher_encrypt(&sym_key, &nonce, &client_key, b"")
            .expect("encrypt ok");

    let enc_plain_word = ChaChaTfheServer::homomorphic_decrypt(
        &key_cts,
        &client_key,
        counter,
        &nonce,
        &ciphertext_word.to_le_bytes(),
    )
    .expect("blind evaluation ok");

    let recovered = TfheU32::decrypt(&client_key, &enc_plain_word).unwrap();
    assert_eq!(recovered, plaintext_word);
}

#[test]
fn test_evaluator_rejects_wrong_key_word_count() {
    let sym_key = ChaCha20Cipher::keygen();
    let nonce = [0u8; 12];
    let (client_key, _server_key) = TfheU32::keygen().unwrap();

    let (_ct, mut key_cts) =
        ChaChaTfheTranscipher::transcipher_encrypt(&sym_key, &nonce, &client_key, b"x")
            .expect("encrypt ok");
    key_cts.pop();

    let r = ChaChaTfheServer::generate_homomorphic_chacha_block(&key_cts, &client_key, 0, &nonce);
    assert!(matches!(r, Err(TranscipherError::HeError)));
}

#[test]
fn test_homomorphic_decrypt_rejects_short_ciphertext() {
    let sym_key = ChaCha20Cipher::keygen();
    let nonce = [0u8; 12];
    let (client_key, _server_key) = TfheU32::keygen().unwrap();

    let (_ct, key_cts) =
        ChaChaTfheTranscipher::transcipher_encrypt(&sym_key, &nonce, &client_key, b"x")
            .expect("encrypt ok");

    let short = [1u8, 2, 3];
    let r = ChaChaTfheServer::homomorphic_decrypt(&key_cts, &client_key, 0, &nonce, &short);
    assert!(matches!(r, Err(TranscipherError::SymmetricError)));
}

#[test]
fn test_transcipher_decrypt_rejects_bad_key_material() {
    let sym_key = ChaCha20Cipher::keygen();
    let nonce = [0u8; 12];
    let (client_key, _server_key) = TfheU32::keygen().unwrap();
    let (other_key, _other_server) = TfheU32::keygen().unwrap();

    let (ciphertext, mut key_cts) =
        ChaChaTfheTranscipher::transcipher_encrypt(&sym_key, &nonce, &client_key, b"payload")
            .expect("encrypt ok");

    // Wrong word count.
    key_cts.pop();
    let r = ChaChaTfheTranscipher::transcipher_decrypt(&nonce, &client_key, &key_cts, &ciphertext);
    assert!(matches!(r, Err(TranscipherError::HeError)));

    // Words encrypted under another key.
    let (_ct2, foreign_cts) =
        ChaChaTfheTranscipher::transcipher_encrypt(&sym_key, &nonce, &other_key, b"payload")
            .expect("encrypt ok");
    let r = ChaChaTfheTranscipher::transcipher_decrypt(&nonce, &client_key, &foreign_cts, &ciphertext);
    assert!(matches!(r, Err(TranscipherError::HeError)));
}

/// Determinism of the keystream, and sensitivity to the nonce and counter.
#[test]
fn test_block_determinism_and_sensitivity() {
    let sym_key = ChaCha20Cipher::keygen();
    let nonce: [u8; 12] = rand::random();
    let other_nonce: [u8; 12] = rand::random();
    let (client_key, _server_key) = TfheU32::keygen().unwrap();

    let (_ct, key_cts) =
        ChaChaTfheTranscipher::transcipher_encrypt(&sym_key, &nonce, &client_key, b"")
            .expect("encrypt ok");

    let decrypt_block = |cts: Vec<transciphering::tfhe_uint::FheUint32>| -> Vec<u32> {
        cts.iter()
            .map(|ct| TfheU32::decrypt(&client_key, ct).unwrap())
            .collect()
    };

    let b1 = decrypt_block(
        ChaChaTfheServer::generate_homomorphic_chacha_block(&key_cts, &client_key, 7, &nonce)
            .unwrap(),
    );
    let b2 = decrypt_block(
        ChaChaTfheServer::generate_homomorphic_chacha_block(&key_cts, &client_key, 7, &nonce)
            .unwrap(),
    );
    assert_eq!(b1, b2);

    let other_counter = decrypt_block(
        ChaChaTfheServer::generate_homomorphic_chacha_block(&key_cts, &client_key, 8, &nonce)
            .unwrap(),
    );
    assert_ne!(b1, other_counter);

    let with_other_nonce = decrypt_block(
        ChaChaTfheServer::generate_homomorphic_chacha_block(&key_cts, &client_key, 7, &other_nonce)
            .unwrap(),
    );
    assert_ne!(b1, with_other_nonce);
}
