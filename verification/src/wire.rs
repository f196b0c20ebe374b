//! The wire format of the transciphering protocol: one length-prefixed
//! binary frame carrying the symmetric ciphertext and the 8 encrypted key
//! words.
//!
//! Layout: an 8-byte little-endian ciphertext length, the ciphertext bytes,
//! then exactly 8 encrypted words of 12 bytes each (8-byte key identifier,
//! 4-byte word, both little-endian).  The decoder accepts a buffer exactly
//! when the header matches the buffer's length; whatever it parses encodes
//! back to the input byte for byte.

use vstd::assert_seqs_equal;
use vstd::bytes::{
    spec_u32_to_le_bytes, spec_u64_from_le_bytes, spec_u64_to_le_bytes,
    u32_from_le_bytes, u32_to_le_bytes, u64_from_le_bytes, u64_to_le_bytes,
};
use vstd::prelude::*;
use vstd::slice::{slice_subrange, slice_to_vec};

use crate::tfhe_uint::FheUint32;

verus! {

/// The 12 wire bytes of one encrypted word.
pub open spec fn word_wire(w: FheUint32) -> Seq<u8> {
    spec_u64_to_le_bytes(w.key()) + spec_u32_to_le_bytes(w.value())
}

/// The concatenated wire bytes of a sequence of encrypted words.
pub open spec fn words_wire(ws: Seq<FheUint32>) -> Seq<u8> {
    Seq::new((ws.len() * 12) as nat, |i: int| word_wire(ws[i / 12])[i % 12])
}

/// The whole payload frame for a ciphertext and its encrypted key words.
pub open spec fn payload_bytes(ct: Seq<u8>, ws: Seq<FheUint32>) -> Seq<u8> {
    spec_u64_to_le_bytes(ct.len() as u64) + ct + words_wire(ws)
}

/// Appending one word appends its 12 wire bytes.
proof fn lemma_words_wire_snoc(ws: Seq<FheUint32>, w: FheUint32)
    ensures
        words_wire(ws.push(w)) == words_wire(ws) + word_wire(w),
{
    vstd::bytes::lemma_auto_spec_u64_to_from_le_bytes();
    vstd::bytes::lemma_auto_spec_u32_to_from_le_bytes();
    let lhs = words_wire(ws.push(w));
    let rhs = words_wire(ws) + word_wire(w);
    assert(lhs.len() == rhs.len()) by (nonlinear_arith)
        requires
            lhs.len() == (ws.len() + 1) * 12,
            rhs.len() == ws.len() * 12 + 12,
    ;
    assert forall|i: int| 0 <= i < lhs.len() implies lhs[i] == rhs[i] by {
        let j = i / 12;
        let t = i % 12;
        assert(i == 12 * j + t && 0 <= t < 12 && 0 <= j <= ws.len()) by (nonlinear_arith)
            requires
                j == i / 12,
                t == i % 12,
                0 <= i < (ws.len() + 1) * 12,
        ;
        if j < ws.len() {
            assert(i < ws.len() * 12) by (nonlinear_arith)
                requires
                    i == 12 * j + t,
                    0 <= t < 12,
                    j < ws.len(),
            ;
        } else {
            assert(i >= ws.len() * 12) by (nonlinear_arith)
                requires
                    i == 12 * j + t,
                    0 <= t,
                    j == ws.len(),
            ;
        }
    }
    assert_seqs_equal!(words_wire(ws.push(w)) == words_wire(ws) + word_wire(w));
}

/// Encode the protocol payload: ciphertext bytes and the 8 encrypted key
/// words.
pub fn encode_payload(ciphertext: &Vec<u8>, key_cts: &Vec<FheUint32>) -> (r: Vec<u8>)
    requires
        key_cts@.len() == 8,
    ensures
        r@ == payload_bytes(ciphertext@, key_cts@),
{
    let mut out = u64_to_le_bytes(ciphertext.len() as u64);
    let mut ct_copy = slice_to_vec(ciphertext.as_slice());
    out.append(&mut ct_copy);
    let ghost prefix = spec_u64_to_le_bytes(ciphertext@.len() as u64) + ciphertext@;
    proof {
        assert(words_wire(key_cts@.subrange(0, 0)) =~= Seq::<u8>::empty());
        assert(out@ =~= prefix + words_wire(key_cts@.subrange(0, 0)));
    }
    let mut i: usize = 0;
    while i < 8
        invariant
            i <= 8,
            key_cts@.len() == 8,
            prefix == spec_u64_to_le_bytes(ciphertext@.len() as u64) + ciphertext@,
            out@ == prefix + words_wire(key_cts@.subrange(0, i as int)),
        decreases 8 - i,
    {
        let w = &key_cts[i];
        let mut kb = u64_to_le_bytes(w.key_number());
        out.append(&mut kb);
        let mut vb = u32_to_le_bytes(w.word_number());
        out.append(&mut vb);
        proof {
            lemma_words_wire_snoc(key_cts@.subrange(0, i as int), key_cts@[i as int]);
            assert(key_cts@.subrange(0, i as int).push(key_cts@[i as int]) =~= key_cts@.subrange(
                0,
                i + 1,
            ));
            assert(out@ =~= prefix + words_wire(key_cts@.subrange(0, i + 1)));
        }
        i = i + 1;
    }
    proof {
        assert(key_cts@.subrange(0, 8) =~= key_cts@);
        assert_seqs_equal!(out@ == payload_bytes(ciphertext@, key_cts@));
    }
    out
}

/// Decode a protocol payload.  Succeeds exactly when the header's length
/// matches the buffer; the parsed ciphertext and words encode back to the
/// input.
pub fn decode_payload(bytes: &[u8]) -> (r: Option<(Vec<u8>, Vec<FheUint32>)>)
    ensures
        r is Some <==> (bytes@.len() >= 104 && spec_u64_from_le_bytes(bytes@.subrange(0, 8))
            == bytes@.len() - 104),
        r matches Some(p) ==> p.1@.len() == 8 && bytes@ == payload_bytes(p.0@, p.1@),
{
    let n: usize = bytes.len();
    if n < 104 {
        return None;
    }
    let ct_len = u64_from_le_bytes(slice_subrange(bytes, 0, 8));
    let want: usize = n - 104;
    if ct_len != want as u64 {
        return None;
    }
    let ct = slice_to_vec(slice_subrange(bytes, 8, 8 + want));
    let base0: usize = 8 + want;
    let mut ws: Vec<FheUint32> = Vec::new();
    let mut i: usize = 0;
    while i < 8
        invariant
            i <= 8,
            n == bytes@.len(),
            n >= 104,
            base0 == n - 96,
            ws@.len() == i,
            forall|j: int|
                0 <= j < i ==> word_wire(ws@[j]) == bytes@.subrange(
                    base0 + 12 * j,
                    base0 + 12 * j + 12,
                ),
        decreases 8 - i,
    {
        let base: usize = base0 + 12 * i;
        let key = u64_from_le_bytes(slice_subrange(bytes, base, base + 8));
        let val = u32_from_le_bytes(slice_subrange(bytes, base + 8, base + 12));
        ws.push(crate::tfhe_uint::make_word(key, val));
        proof {
            vstd::bytes::lemma_auto_spec_u64_to_from_le_bytes();
            vstd::bytes::lemma_auto_spec_u32_to_from_le_bytes();
            let chunk = bytes@.subrange(base0 + 12 * i, base0 + 12 * i + 12);
            assert(chunk.subrange(0, 8) =~= bytes@.subrange(base as int, base + 8));
            assert(chunk.subrange(8, 12) =~= bytes@.subrange(base + 8, base + 12));
            assert(word_wire(ws@[i as int]) =~= chunk.subrange(0, 8) + chunk.subrange(8, 12));
            assert(word_wire(ws@[i as int]) =~= chunk);
        }
        i = i + 1;
    }
    proof {
        vstd::bytes::lemma_auto_spec_u64_to_from_le_bytes();
        let payload = payload_bytes(ct@, ws@);
        assert(spec_u64_to_le_bytes(ct@.len() as u64) =~= bytes@.subrange(0, 8));
        assert(payload.len() == bytes@.len()) by (nonlinear_arith)
            requires
                payload.len() == 8 + ct@.len() + ws@.len() * 12,
                ct@.len() == bytes@.len() - 104,
                ws@.len() == 8,
        ;
        assert forall|i2: int| 0 <= i2 < bytes@.len() implies payload[i2] == bytes@[i2] by {
            if i2 < 8 {
                assert(payload[i2] == bytes@.subrange(0, 8)[i2]);
            } else if i2 < 8 + ct@.len() {
                assert(ct@[i2 - 8] == bytes@[i2]);
            } else {
                let off = i2 - 8 - ct@.len();
                let j = off / 12;
                let t = off % 12;
                assert(off == 12 * j + t && 0 <= t < 12 && 0 <= j < 8) by (nonlinear_arith)
                    requires
                        j == off / 12,
                        t == off % 12,
                        0 <= off < 96,
                ;
                assert(words_wire(ws@)[off] == word_wire(ws@[j])[t]);
                assert(word_wire(ws@[j])[t] == bytes@.subrange(
                    (bytes@.len() - 96) + 12 * j,
                    (bytes@.len() - 96) + 12 * j + 12,
                )[t]);
            }
        }
        assert_seqs_equal!(payload_bytes(ct@, ws@) == bytes@);
    }
    Some((ct, ws))
}

} // verus!
