//! The ChaCha20 stream cipher: the cleartext reference of the ARX block
//! function, and the ground truth the homomorphic evaluator is proved
//! against.
//!
//! The block function builds a 16-word state
//! `[constant0..3, key0..7, counter, nonce0..2]`, mixes it with 10 double
//! rounds (4 column quarter-rounds then 4 diagonal quarter-rounds each) and
//! adds the mixed state word-wise to the initial state.  The keystream is
//! the little-endian byte stream of consecutive blocks, the block counter
//! starting at 0 and wrapping modulo `2^32`; ciphertext is plaintext XOR
//! keystream, so decryption equals encryption.

use vstd::assert_seqs_equal;
use vstd::bytes::{spec_u32_from_le_bytes, spec_u32_to_le_bytes, u32_from_le_bytes, u32_to_le_bytes};
use vstd::prelude::*;
use vstd::slice::slice_subrange;

use crate::symmetric::{random_key_bytes, SymmetricCipher, SymmetricError};
use crate::tfhe_uint::rotl32;

verus! {

/// First word of the ARX constant "expand 32-byte k".
pub const CHACHA_C0: u32 = 0x6170_7865;

/// Second word of the ARX constant.
pub const CHACHA_C1: u32 = 0x3320_646e;

/// Third word of the ARX constant.
pub const CHACHA_C2: u32 = 0x7962_2d32;

/// Fourth word of the ARX constant.
pub const CHACHA_C3: u32 = 0x6b20_6574;

/// The 32-bit words read little-endian from a byte sequence whose length is
/// a multiple of four.
pub open spec fn words_of_le_bytes(b: Seq<u8>) -> Seq<u32> {
    Seq::new((b.len() / 4) as nat, |i: int| spec_u32_from_le_bytes(b.subrange(4 * i, 4 * i + 4)))
}

/// The little-endian byte sequence of a sequence of 32-bit words.
pub open spec fn le_bytes_of_words(ws: Seq<u32>) -> Seq<u8> {
    Seq::new((ws.len() * 4) as nat, |i: int| spec_u32_to_le_bytes(ws[i / 4])[i % 4])
}

/// One quarter-round of the ARX network on state positions `a, b, c, d`.
pub open spec fn qround(s: Seq<u32>, a: int, b: int, c: int, d: int) -> Seq<u32> {
    let a1 = s[a].wrapping_add(s[b]);
    let d1 = rotl32(s[d] ^ a1, 16);
    let c1 = s[c].wrapping_add(d1);
    let b1 = rotl32(s[b] ^ c1, 12);
    let a2 = a1.wrapping_add(b1);
    let d2 = rotl32(d1 ^ a2, 8);
    let c2 = c1.wrapping_add(d2);
    let b2 = rotl32(b1 ^ c2, 7);
    s.update(a, a2).update(b, b2).update(c, c2).update(d, d2)
}

/// The four column quarter-rounds.
pub open spec fn column_round(s: Seq<u32>) -> Seq<u32> {
    qround(qround(qround(qround(s, 0, 4, 8, 12), 1, 5, 9, 13), 2, 6, 10, 14), 3, 7, 11, 15)
}

/// The four diagonal quarter-rounds.
pub open spec fn diagonal_round(s: Seq<u32>) -> Seq<u32> {
    qround(qround(qround(qround(s, 0, 5, 10, 15), 1, 6, 11, 12), 2, 7, 8, 13), 3, 4, 9, 14)
}

/// One double round: a column round followed by a diagonal round.
pub open spec fn double_round(s: Seq<u32>) -> Seq<u32> {
    diagonal_round(column_round(s))
}

/// `n` double rounds applied to the state.
pub open spec fn rounds(s: Seq<u32>, n: nat) -> Seq<u32>
    decreases n,
{
    if n == 0 {
        s
    } else {
        double_round(rounds(s, (n - 1) as nat))
    }
}

/// The initial 16-word block state: four constants, eight key words, the
/// block counter, three nonce words.
pub open spec fn init_state(key: Seq<u32>, counter: u32, nonce: Seq<u32>) -> Seq<u32> {
    seq![CHACHA_C0, CHACHA_C1, CHACHA_C2, CHACHA_C3] + key + seq![counter] + nonce
}

/// The 16 output words of one block: the state after 20 rounds of mixing,
/// added word-wise modulo `2^32` to the initial state.
pub open spec fn block_words(key: Seq<u32>, counter: u32, nonce: Seq<u32>) -> Seq<u32> {
    let s0 = init_state(key, counter, nonce);
    let sr = rounds(s0, 10);
    Seq::new(16, |i: int| sr[i].wrapping_add(s0[i]))
}

/// The 64 keystream bytes of one block, little-endian.
pub open spec fn block_bytes(key: Seq<u32>, counter: u32, nonce: Seq<u32>) -> Seq<u8> {
    le_bytes_of_words(block_words(key, counter, nonce))
}

/// The counter of block number `blk` in a stream that starts at `c0`; the
/// 32-bit counter wraps.
pub open spec fn counter_at(c0: u32, blk: int) -> u32 {
    c0.wrapping_add((blk % 0x1_0000_0000) as u32)
}

/// Byte `i` of the keystream that starts at block counter `c0`.
pub open spec fn keystream_byte(key: Seq<u32>, c0: u32, nonce: Seq<u32>, i: int) -> u8 {
    block_bytes(key, counter_at(c0, i / 64), nonce)[i % 64]
}

/// The cipher itself: each data byte XORed with the corresponding keystream
/// byte, the counter starting at 0.  Encryption and decryption are this same
/// map.
pub open spec fn chacha20_cipher(key_bytes: Seq<u8>, nonce_bytes: Seq<u8>, data: Seq<u8>) -> Seq<
    u8,
>
    recommends
        key_bytes.len() == 32,
        nonce_bytes.len() == 12,
{
    Seq::new(
        data.len(),
        |i: int|
            data[i] ^ keystream_byte(
                words_of_le_bytes(key_bytes),
                0,
                words_of_le_bytes(nonce_bytes),
                i,
            ),
    )
}

/// XOR with the same keystream twice gives the data back: the cipher is its
/// own inverse, which is the round-trip law of the stream cipher.
pub proof fn lemma_cipher_involutive(key_bytes: Seq<u8>, nonce_bytes: Seq<u8>, data: Seq<u8>)
    ensures
        chacha20_cipher(key_bytes, nonce_bytes, chacha20_cipher(key_bytes, nonce_bytes, data))
            == data,
{
    let once = chacha20_cipher(key_bytes, nonce_bytes, data);
    let twice = chacha20_cipher(key_bytes, nonce_bytes, once);
    assert forall|i: int| 0 <= i < data.len() implies twice[i] == data[i] by {
        let k = keystream_byte(
            words_of_le_bytes(key_bytes),
            0,
            words_of_le_bytes(nonce_bytes),
            i,
        );
        lemma_xor_cancel(data[i], k);
    }
    assert_seqs_equal!(twice == data);
}

/// The keystream is a function of the key, the starting counter and the
/// nonce alone: the same inputs always yield the same keystream.
pub proof fn lemma_keystream_deterministic(
    key1: Seq<u32>,
    c1: u32,
    nonce1: Seq<u32>,
    key2: Seq<u32>,
    c2: u32,
    nonce2: Seq<u32>,
    i: int,
)
    requires
        key1 == key2,
        c1 == c2,
        nonce1 == nonce2,
    ensures
        keystream_byte(key1, c1, nonce1, i) == keystream_byte(key2, c2, nonce2, i),
{
}

/// XORing twice with the same byte is the identity.
pub proof fn lemma_xor_cancel(x: u8, k: u8)
    by (bit_vector)
    ensures
        (x ^ k) ^ k == x,
{
}

/// Parse a byte buffer whose length is a multiple of four into its
/// little-endian 32-bit words.
pub(crate) fn words_from_le(bytes: &[u8]) -> (r: Vec<u32>)
    requires
        bytes@.len() % 4 == 0,
    ensures
        r@ == words_of_le_bytes(bytes@),
{
    let len: usize = bytes.len();
    let n: usize = len / 4;
    proof {
        assert(4 * (len as int / 4) == len as int) by (nonlinear_arith)
            requires
                len as int % 4 == 0,
        ;
    }
    let mut r: Vec<u32> = Vec::new();
    let mut i: usize = 0;
    while i < n
        invariant
            i <= n,
            len == bytes@.len(),
            n == len as int / 4,
            4 * (n as int) == len as int,
            r@.len() == i,
            forall|j: int|
                0 <= j < i ==> r@[j] == spec_u32_from_le_bytes(
                    bytes@.subrange(4 * j, 4 * j + 4),
                ),
        decreases n - i,
    {
        proof {
            assert(4 * (i as int) + 4 <= 4 * (n as int)) by (nonlinear_arith)
                requires
                    i < n,
            ;
        }
        let w = u32_from_le_bytes(slice_subrange(bytes, 4 * i, 4 * i + 4));
        r.push(w);
        i = i + 1;
    }
    proof {
        assert_seqs_equal!(r@ == words_of_le_bytes(bytes@));
    }
    r
}

/// One quarter-round, executed in place on the 16-word state.
fn qround_exec(s: &mut Vec<u32>, a: usize, b: usize, c: usize, d: usize)
    requires
        old(s)@.len() == 16,
        a < 16 && b < 16 && c < 16 && d < 16,
        a != b && a != c && a != d && b != c && b != d && c != d,
    ensures
        final(s)@.len() == 16,
        final(s)@ == qround(old(s)@, a as int, b as int, c as int, d as int),
{
    s[a] = s[a].wrapping_add(s[b]);
    let t1: u32 = s[d] ^ s[a];
    s[d] = (t1 << 16) | (t1 >> 16);
    s[c] = s[c].wrapping_add(s[d]);
    let t2: u32 = s[b] ^ s[c];
    s[b] = (t2 << 12) | (t2 >> 20);
    s[a] = s[a].wrapping_add(s[b]);
    let t3: u32 = s[d] ^ s[a];
    s[d] = (t3 << 8) | (t3 >> 24);
    s[c] = s[c].wrapping_add(s[d]);
    let t4: u32 = s[b] ^ s[c];
    s[b] = (t4 << 7) | (t4 >> 25);
    proof {
        assert_seqs_equal!(s@ == qround(old(s)@, a as int, b as int, c as int, d as int));
    }
}

/// Compute the 16 output words of one cleartext block.
pub fn chacha_block(key_ws: &Vec<u32>, counter: u32, nonce_ws: &Vec<u32>) -> (out: Vec<u32>)
    requires
        key_ws@.len() == 8,
        nonce_ws@.len() == 3,
    ensures
        out@ == block_words(key_ws@, counter, nonce_ws@),
{
    let mut state: Vec<u32> = Vec::new();
    state.push(CHACHA_C0);
    state.push(CHACHA_C1);
    state.push(CHACHA_C2);
    state.push(CHACHA_C3);
    state.push(key_ws[0]);
    state.push(key_ws[1]);
    state.push(key_ws[2]);
    state.push(key_ws[3]);
    state.push(key_ws[4]);
    state.push(key_ws[5]);
    state.push(key_ws[6]);
    state.push(key_ws[7]);
    state.push(counter);
    state.push(nonce_ws[0]);
    state.push(nonce_ws[1]);
    state.push(nonce_ws[2]);
    proof {
        assert_seqs_equal!(state@ == init_state(key_ws@, counter, nonce_ws@));
    }
    let ghost s0 = state@;

    let mut working: Vec<u32> = Vec::new();
    let mut i: usize = 0;
    while i < 16
        invariant
            i <= 16,
            state@ == s0,
            s0.len() == 16,
            working@ == s0.subrange(0, i as int),
        decreases 16 - i,
    {
        working.push(state[i]);
        proof {
            assert_seqs_equal!(working@ == s0.subrange(0, i + 1));
        }
        i = i + 1;
    }
    proof {
        assert_seqs_equal!(working@ == rounds(s0, 0));
    }

    let mut r: usize = 0;
    while r < 10
        invariant
            r <= 10,
            state@ == s0,
            s0 == init_state(key_ws@, counter, nonce_ws@),
            s0.len() == 16,
            working@.len() == 16,
            working@ == rounds(s0, r as nat),
        decreases 10 - r,
    {
        qround_exec(&mut working, 0, 4, 8, 12);
        qround_exec(&mut working, 1, 5, 9, 13);
        qround_exec(&mut working, 2, 6, 10, 14);
        qround_exec(&mut working, 3, 7, 11, 15);
        qround_exec(&mut working, 0, 5, 10, 15);
        qround_exec(&mut working, 1, 6, 11, 12);
        qround_exec(&mut working, 2, 7, 8, 13);
        qround_exec(&mut working, 3, 4, 9, 14);
        proof {
            assert(working@ == double_round(rounds(s0, r as nat)));
            assert(rounds(s0, (r + 1) as nat) == double_round(rounds(s0, r as nat)));
        }
        r = r + 1;
    }

    let mut out: Vec<u32> = Vec::new();
    let mut j: usize = 0;
    while j < 16
        invariant
            j <= 16,
            state@ == s0,
            s0 == init_state(key_ws@, counter, nonce_ws@),
            s0.len() == 16,
            working@.len() == 16,
            working@ == rounds(s0, 10),
            out@.len() == j,
            forall|t: int| 0 <= t < j ==> out@[t] == rounds(s0, 10)[t].wrapping_add(s0[t]),
        decreases 16 - j,
    {
        out.push(working[j].wrapping_add(state[j]));
        j = j + 1;
    }
    proof {
        assert_seqs_equal!(out@ == block_words(key_ws@, counter, nonce_ws@));
    }
    out
}

/// The first `len` bytes of the keystream that starts at counter `c0`.
fn keystream_prefix(key_ws: &Vec<u32>, c0: u32, nonce_ws: &Vec<u32>, len: usize) -> (out: Vec<u8>)
    requires
        key_ws@.len() == 8,
        nonce_ws@.len() == 3,
    ensures
        out@.len() == len,
        forall|j: int| 0 <= j < len ==> out@[j] == keystream_byte(key_ws@, c0, nonce_ws@, j),
{
    let nblocks: usize = len / 64 + (if len % 64 == 0 {
        0usize
    } else {
        1usize
    });
    proof {
        assert(64 * (len / 64) + len % 64 == len) by (nonlinear_arith);
        assert(64 * nblocks >= len) by (nonlinear_arith)
            requires
                nblocks == len / 64 + (if len % 64 == 0 {
                    0int
                } else {
                    1int
                }),
                64 * (len / 64) + len % 64 == len,
                0 <= len % 64 < 64,
        ;
    }
    let mut out: Vec<u8> = Vec::new();
    let mut blk: usize = 0;
    while blk < nblocks
        invariant
            blk <= nblocks,
            key_ws@.len() == 8,
            nonce_ws@.len() == 3,
            64 * nblocks >= len,
            out@.len() == 64 * blk,
            forall|j: int| 0 <= j < out@.len() ==> out@[j] == keystream_byte(
                key_ws@,
                c0,
                nonce_ws@,
                j,
            ),
        decreases nblocks - blk,
    {
        let ctr: u32 = c0.wrapping_add(#[verifier::truncate] (blk as u32));
        proof {
            assert((blk as u32) as int == blk as int % 0x1_0000_0000) by (bit_vector);
            assert(ctr == counter_at(c0, blk as int));
        }
        let words = chacha_block(key_ws, ctr, nonce_ws);
        let mut w: usize = 0;
        while w < 16
            invariant
                w <= 16,
                key_ws@.len() == 8,
                nonce_ws@.len() == 3,
                words@ == block_words(key_ws@, counter_at(c0, blk as int), nonce_ws@),
                words@.len() == 16,
                out@.len() == 64 * blk + 4 * w,
                forall|j: int| 0 <= j < out@.len() ==> out@[j] == keystream_byte(
                    key_ws@,
                    c0,
                    nonce_ws@,
                    j,
                ),
            decreases 16 - w,
        {
            let bs = u32_to_le_bytes(words[w]);
            let ghost prior = out@.len() as int;
            out.push(bs[0]);
            out.push(bs[1]);
            out.push(bs[2]);
            out.push(bs[3]);
            proof {
                assert forall|j: int| prior <= j < out@.len() implies out@[j] == keystream_byte(
                    key_ws@,
                    c0,
                    nonce_ws@,
                    j,
                ) by {
                    let t = j - prior;
                    let off = 4 * (w as int) + t;
                    assert(j == 64 * (blk as int) + off && 0 <= off < 64 && 0 <= t < 4);
                    assert(j / 64 == blk as int && j % 64 == off) by (nonlinear_arith)
                        requires
                            j == 64 * (blk as int) + off,
                            0 <= off < 64,
                            0 <= blk as int,
                    ;
                    assert(off / 4 == w as int && off % 4 == t) by (nonlinear_arith)
                        requires
                            off == 4 * (w as int) + t,
                            0 <= t < 4,
                            0 <= w as int,
                    ;
                    assert(out@[j] == bs@[t]);
                    assert(keystream_byte(key_ws@, c0, nonce_ws@, j) == block_bytes(
                        key_ws@,
                        counter_at(c0, blk as int),
                        nonce_ws@,
                    )[off]);
                }
            }
            w = w + 1;
        }
        blk = blk + 1;
    }
    out.truncate(len);
    out
}

/// XOR a byte buffer against the keystream of the given key and nonce
/// words, the counter starting at 0.
pub(crate) fn apply_keystream_words(key_ws: &Vec<u32>, nonce_ws: &Vec<u32>, data: &[u8]) -> (out:
    Vec<u8>)
    requires
        key_ws@.len() == 8,
        nonce_ws@.len() == 3,
    ensures
        out@.len() == data@.len(),
        forall|i: int|
            0 <= i < data@.len() ==> out@[i] == (data@[i] ^ keystream_byte(
                key_ws@,
                0,
                nonce_ws@,
                i,
            )),
{
    let ks = keystream_prefix(key_ws, 0, nonce_ws, data.len());
    let mut out: Vec<u8> = Vec::new();
    let mut i: usize = 0;
    while i < data.len()
        invariant
            i <= data@.len(),
            ks@.len() == data@.len(),
            key_ws@.len() == 8,
            nonce_ws@.len() == 3,
            forall|j: int| 0 <= j < ks@.len() ==> ks@[j] == keystream_byte(
                key_ws@,
                0,
                nonce_ws@,
                j,
            ),
            out@.len() == i,
            forall|j: int| 0 <= j < i ==> out@[j] == (data@[j] ^ ks@[j]),
        decreases data@.len() - i,
    {
        let ks_byte = ks[i];
        let x = data[i] ^ ks_byte;
        out.push(x);
        i = i + 1;
    }
    out
}

/// XOR a byte buffer against the keystream: the one body behind encryption
/// and decryption.
fn apply_keystream(key: &[u8; 32], nonce: &[u8; 12], data: &[u8]) -> (out: Vec<u8>)
    ensures
        out@ == chacha20_cipher(key@, nonce@, data@),
{
    let key_ws = words_from_le(key.as_slice());
    let nonce_ws = words_from_le(nonce.as_slice());
    let out = apply_keystream_words(&key_ws, &nonce_ws, data);
    proof {
        assert_seqs_equal!(out@ == chacha20_cipher(key@, nonce@, data@));
    }
    out
}

/// Reading the little-endian bytes of a word sequence back as words gives
/// the same words.
pub proof fn lemma_words_le_roundtrip(ws: Seq<u32>)
    ensures
        words_of_le_bytes(le_bytes_of_words(ws)) == ws,
{
    vstd::bytes::lemma_auto_spec_u32_to_from_le_bytes();
    let le = le_bytes_of_words(ws);
    assert((ws.len() * 4) as int / 4 == ws.len()) by (nonlinear_arith);
    assert forall|i: int| 0 <= i < ws.len() implies words_of_le_bytes(le)[i] == ws[i] by {
        assert(4 * i + 4 <= le.len()) by (nonlinear_arith)
            requires
                0 <= i < ws.len(),
                le.len() == ws.len() * 4,
        ;
        assert forall|j: int| 0 <= j < 4 implies le.subrange(4 * i, 4 * i + 4)[j]
            == spec_u32_to_le_bytes(ws[i])[j] by {
            assert((4 * i + j) / 4 == i && (4 * i + j) % 4 == j) by (nonlinear_arith)
                requires
                    0 <= j < 4,
                    0 <= i,
            ;
        }
        assert(le.subrange(4 * i, 4 * i + 4) =~= spec_u32_to_le_bytes(ws[i]));
    }
    assert_seqs_equal!(words_of_le_bytes(le_bytes_of_words(ws)) == ws);
}

/// Writing the words parsed from a byte sequence (whose length is a
/// multiple of four) back as little-endian bytes gives the same bytes.
pub proof fn lemma_le_words_roundtrip(b: Seq<u8>)
    requires
        b.len() % 4 == 0,
    ensures
        le_bytes_of_words(words_of_le_bytes(b)) == b,
{
    vstd::bytes::lemma_auto_spec_u32_to_from_le_bytes();
    let ws = words_of_le_bytes(b);
    assert((b.len() as int / 4) * 4 == b.len()) by (nonlinear_arith)
        requires
            b.len() as int % 4 == 0,
    ;
    let le = le_bytes_of_words(ws);
    assert forall|i: int| 0 <= i < b.len() implies le[i] == b[i] by {
        let q = i / 4;
        let s = i % 4;
        assert(i == 4 * q + s && 0 <= s < 4 && 0 <= q) by (nonlinear_arith)
            requires
                q == i / 4,
                s == i % 4,
                0 <= i,
        ;
        assert(q < ws.len() && 4 * q + 4 <= b.len()) by (nonlinear_arith)
            requires
                0 <= i < b.len(),
                q == i / 4,
                ws.len() == b.len() as int / 4,
                (b.len() as int / 4) * 4 == b.len(),
        ;
        assert(ws[q] == spec_u32_from_le_bytes(b.subrange(4 * q, 4 * q + 4)));
        assert(spec_u32_to_le_bytes(ws[q]) == b.subrange(4 * q, 4 * q + 4));
        assert(le[i] == spec_u32_to_le_bytes(ws[q])[s]);
        assert(b.subrange(4 * q, 4 * q + 4)[s] == b[i]);
    }
    assert_seqs_equal!(le_bytes_of_words(words_of_le_bytes(b)) == b);
}

/// The ChaCha20 symmetric stream cipher: 32-byte key, 12-byte nonce,
/// keystream XOR over byte buffers of any length.
pub struct ChaCha20Cipher;

impl SymmetricCipher for ChaCha20Cipher {
    type Key = [u8; 32];

    type Nonce = [u8; 12];

    fn keygen() -> [u8; 32] {
        random_key_bytes()
    }

    /// Encrypt by XOR against the keystream of (key, nonce).
    fn encrypt(key: &[u8; 32], nonce: &[u8; 12], plaintext: &[u8]) -> (r: Result<
        Vec<u8>,
        SymmetricError,
    >)
        ensures
            r matches Ok(ct) && ct@ == chacha20_cipher(key@, nonce@, plaintext@),
    {
        Ok(apply_keystream(key, nonce, plaintext))
    }

    /// Decrypt by the same XOR; the cipher is its own inverse.
    fn decrypt(key: &[u8; 32], nonce: &[u8; 12], ciphertext: &[u8]) -> (r: Result<
        Vec<u8>,
        SymmetricError,
    >)
        ensures
            r matches Ok(pt) && pt@ == chacha20_cipher(key@, nonce@, ciphertext@),
    {
        Ok(apply_keystream(key, nonce, ciphertext))
    }
}

} // verus!
