//! Encrypted ASCII strings: the reference backend of the string algebra.
//!
//! An [`FheAsciiString`] holds the ASCII codes of a string encrypted under a
//! key pair.  The comparison, case-conversion, trimming and stripping
//! operations run on the encrypted value and carry exact contracts over the
//! byte sequence; decryption requires the matching secret key.

use vstd::assert_seqs_equal;
use vstd::prelude::*;
use vstd::slice::{slice_subrange, slice_to_vec};
use vstd::string::StrSliceExecFns;

use crate::he::{HeError, HomomorphicEncryption};
use crate::keys::{ClientKey, ServerKey};
use crate::tfhe_bool::{make_fhe_bool, FheBool, TfheBool};
use crate::tfhe_uint::{FheUint32, TfheU32};

verus! {

/// The ASCII codes of a character sequence.
pub open spec fn bytes_of_chars(chars: Seq<char>) -> Seq<u8> {
    chars.map_values(|c: char| c as u8)
}

/// The characters spelled by a byte sequence of ASCII codes.
pub open spec fn chars_of_bytes(bytes: Seq<u8>) -> Seq<char> {
    bytes.map_values(|b: u8| b as char)
}

/// ASCII whitespace: space, tab, line feed, form feed, carriage return.
pub open spec fn is_ascii_ws(b: u8) -> bool {
    b == 32 || b == 9 || b == 10 || b == 12 || b == 13
}

/// Lower-casing of one ASCII code.
pub open spec fn to_lower_byte(b: u8) -> u8 {
    if 65 <= b <= 90 {
        (b + 32) as u8
    } else {
        b
    }
}

/// Upper-casing of one ASCII code.
pub open spec fn to_upper_byte(b: u8) -> u8 {
    if 97 <= b <= 122 {
        (b - 32) as u8
    } else {
        b
    }
}

/// The byte sequence with its leading ASCII whitespace removed.
pub open spec fn trim_start_bytes(s: Seq<u8>) -> Seq<u8>
    decreases s.len(),
{
    if s.len() == 0 {
        s
    } else if is_ascii_ws(s[0]) {
        trim_start_bytes(s.subrange(1, s.len() as int))
    } else {
        s
    }
}

/// The byte sequence with its trailing ASCII whitespace removed.
pub open spec fn trim_end_bytes(s: Seq<u8>) -> Seq<u8>
    decreases s.len(),
{
    if s.len() == 0 {
        s
    } else if is_ascii_ws(s[s.len() - 1]) {
        trim_end_bytes(s.subrange(0, s.len() - 1))
    } else {
        s
    }
}

/// The byte sequence with whitespace removed at both ends.
pub open spec fn trim_bytes(s: Seq<u8>) -> Seq<u8> {
    trim_end_bytes(trim_start_bytes(s))
}

/// Whether `s` starts with `p`.
pub open spec fn starts_with_bytes(s: Seq<u8>, p: Seq<u8>) -> bool {
    s.len() >= p.len() && s.subrange(0, p.len() as int) == p
}

/// Whether `s` ends with `p`.
pub open spec fn ends_with_bytes(s: Seq<u8>, p: Seq<u8>) -> bool {
    s.len() >= p.len() && s.subrange(s.len() - p.len(), s.len() as int) == p
}

/// An ASCII string encrypted under the key pair identified by `key_id`.
/// Its view is the sequence of ASCII codes.
#[derive(Debug)]
pub struct FheAsciiString {
    key_id: u64,
    bytes: Vec<u8>,
}

impl View for FheAsciiString {
    type V = Seq<u8>;

    closed spec fn view(&self) -> Seq<u8> {
        self.bytes@
    }
}

impl FheAsciiString {
    /// Every code is ASCII and the length fits the 16-bit length word.
    #[verifier::type_invariant]
    pub closed spec fn wf(self) -> bool {
        self.bytes@.len() <= 65535 && forall|i: int|
            0 <= i < self.bytes@.len() ==> self.bytes@[i] < 128
    }

    /// The identifier of the key pair the string was encrypted under.
    pub closed spec fn key(self) -> u64 {
        self.key_id
    }
}

/// A cleartext string operand, as handed to the stripping operations.  Its
/// view is its UTF-8 byte sequence.
#[derive(Debug, Clone)]
pub struct ClearString {
    bytes: Vec<u8>,
}

impl View for ClearString {
    type V = Seq<u8>;

    closed spec fn view(&self) -> Seq<u8> {
        self.bytes@
    }
}

impl ClearString {
    /// Wrap a cleartext string.
    pub fn new(s: String) -> (r: ClearString)
        ensures
            r@ == vstd::utf8::encode_utf8(s@),
    {
        let bytes = s.as_str().as_bytes_vec();
        ClearString { bytes }
    }
}

/// An encrypted string length, either carried in the clear beside the
/// ciphertext or itself encrypted.
pub enum FheStringLen {
    NoPadding(u16),
    Padding(FheUint32),
}

/// An encrypted emptiness flag, either carried in the clear beside the
/// ciphertext or itself encrypted.
pub enum FheStringIsEmpty {
    NoPadding(bool),
    Padding(FheBool),
}

/// Relies on `String::from_utf8`: bytes below 128 are valid UTF-8 and
/// decode to one character each.
#[verifier::external_body]
pub(crate) fn ascii_string_from_bytes(bytes: &Vec<u8>) -> (r: String)
    requires
        forall|i: int| 0 <= i < bytes@.len() ==> bytes@[i] < 128,
    ensures
        r@.len() == bytes@.len(),
        forall|i: int| 0 <= i < bytes@.len() ==> r@[i] == bytes@[i] as char,
{
    match String::from_utf8(bytes.clone()) {
        Ok(s) => s,
        Err(_) => String::new(),
    }
}

/// Compare two byte vectors for equality.
fn bytes_equal(a: &Vec<u8>, b: &Vec<u8>) -> (r: bool)
    ensures
        r == (a@ == b@),
{
    if a.len() != b.len() {
        return false;
    }
    let mut i: usize = 0;
    while i < a.len()
        invariant
            i <= a@.len(),
            a@.len() == b@.len(),
            forall|j: int| 0 <= j < i ==> a@[j] == b@[j],
        decreases a@.len() - i,
    {
        if a[i] != b[i] {
            return false;
        }
        i = i + 1;
    }
    proof {
        assert_seqs_equal!(a@ == b@);
    }
    true
}

/// Whether `s` starts with `p`, on byte vectors.
fn has_prefix(s: &Vec<u8>, p: &Vec<u8>) -> (r: bool)
    ensures
        r == starts_with_bytes(s@, p@),
{
    if s.len() < p.len() {
        return false;
    }
    let mut i: usize = 0;
    while i < p.len()
        invariant
            i <= p@.len(),
            p@.len() <= s@.len(),
            forall|j: int| 0 <= j < i ==> s@[j] == p@[j],
        decreases p@.len() - i,
    {
        if s[i] != p[i] {
            assert(s@.subrange(0, p@.len() as int)[i as int] != p@[i as int]);
            return false;
        }
        i = i + 1;
    }
    proof {
        assert_seqs_equal!(s@.subrange(0, p@.len() as int) == p@);
    }
    true
}

/// Whether `s` ends with `p`, on byte vectors.
fn has_suffix(s: &Vec<u8>, p: &Vec<u8>) -> (r: bool)
    ensures
        r == ends_with_bytes(s@, p@),
{
    let n: usize = s.len();
    if n < p.len() {
        return false;
    }
    let off: usize = n - p.len();
    let mut i: usize = 0;
    while i < p.len()
        invariant
            i <= p@.len(),
            p@.len() <= s@.len(),
            n == s@.len(),
            off == s@.len() - p@.len(),
            forall|j: int| 0 <= j < i ==> s@[off + j] == p@[j],
        decreases p@.len() - i,
    {
        proof {
            assert(off + i < n);
        }
        if s[off + i] != p[i] {
            assert(s@.subrange(s@.len() - p@.len(), s@.len() as int)[i as int] != p@[i as int]);
            return false;
        }
        i = i + 1;
    }
    proof {
        assert_seqs_equal!(s@.subrange(s@.len() - p@.len(), s@.len() as int) == p@);
    }
    true
}

/// Whether a byte is ASCII whitespace.
fn byte_is_ws(b: u8) -> (r: bool)
    ensures
        r == is_ascii_ws(b),
{
    b == 32 || b == 9 || b == 10 || b == 12 || b == 13
}

/// Remove leading ASCII whitespace from a byte vector.
fn trim_start_vec(v: &Vec<u8>) -> (r: Vec<u8>)
    ensures
        r@ == trim_start_bytes(v@),
        exists|k: int| 0 <= k <= v@.len() && r@ == v@.subrange(k, v@.len() as int),
{
    proof {
        assert(v@.subrange(0, v@.len() as int) =~= v@);
    }
    let mut i: usize = 0;
    while i < v.len() && byte_is_ws(v[i])
        invariant
            i <= v@.len(),
            trim_start_bytes(v@) == trim_start_bytes(v@.subrange(i as int, v@.len() as int)),
        decreases v@.len() - i,
    {
        proof {
            let cur = v@.subrange(i as int, v@.len() as int);
            assert(cur.subrange(1, cur.len() as int) =~= v@.subrange(
                i + 1,
                v@.len() as int,
            ));
        }
        i = i + 1;
    }
    proof {
        let cur = v@.subrange(i as int, v@.len() as int);
        if i < v@.len() {
            assert(!is_ascii_ws(cur[0]));
        }
        assert(trim_start_bytes(cur) == cur);
    }
    slice_to_vec(slice_subrange(v.as_slice(), i, v.len()))
}

/// Remove trailing ASCII whitespace from a byte vector.
fn trim_end_vec(v: &Vec<u8>) -> (r: Vec<u8>)
    ensures
        r@ == trim_end_bytes(v@),
        exists|k: int| 0 <= k <= v@.len() && r@ == v@.subrange(0, k),
{
    proof {
        assert(v@.subrange(0, v@.len() as int) =~= v@);
    }
    let mut j: usize = v.len();
    while j > 0 && byte_is_ws(v[j - 1])
        invariant
            j <= v@.len(),
            trim_end_bytes(v@) == trim_end_bytes(v@.subrange(0, j as int)),
        decreases j,
    {
        proof {
            let cur = v@.subrange(0, j as int);
            assert(cur.subrange(0, cur.len() - 1) =~= v@.subrange(0, j - 1));
        }
        j = j - 1;
    }
    proof {
        let cur = v@.subrange(0, j as int);
        if j > 0 {
            assert(!is_ascii_ws(cur[cur.len() - 1]));
        }
        assert(trim_end_bytes(cur) == cur);
    }
    slice_to_vec(slice_subrange(v.as_slice(), 0, j))
}

/// The encrypted-string algebra.
#[derive(Debug, Clone)]
pub struct TfheString;

impl HomomorphicEncryption for TfheString {
    type SecretKey = ClientKey;

    type PublicKey = ServerKey;

    type Ciphertext = FheAsciiString;

    type Plaintext = String;

    fn keygen() -> (r: Result<(ClientKey, ServerKey), HeError>)
        ensures
            r matches Ok(p) && p.0.id() == p.1.id(),
    {
        Ok(crate::keys::generate_key_pair())
    }

    /// Encrypt an ASCII string of at most 65535 characters; anything else is
    /// rejected with `EncryptError`.
    fn encrypt(sk: &ClientKey, pt: &String) -> (r: Result<FheAsciiString, HeError>)
        ensures
            (vstd::utf8::is_ascii_chars(pt@) && pt@.len() <= 65535) ==> (r matches Ok(c)
                && c.key() == sk.id() && c@ == bytes_of_chars(pt@)),
            !(vstd::utf8::is_ascii_chars(pt@) && pt@.len() <= 65535) ==> (r matches Err(e)
                && e is EncryptError),
    {
        let st = pt.as_str();
        if !st.is_ascii() {
            return Err(HeError::EncryptError);
        }
        let bytes = st.as_bytes_vec();
        proof {
            vstd::string::is_ascii_spec_bytes(st);
            vstd::utf8::is_ascii_chars_nat_bound(pt@);
            assert(bytes@.len() == pt@.len());
            assert forall|i: int| 0 <= i < bytes@.len() implies bytes@[i] < 128 by {
                assert(bytes@[i] == pt@[i] as u8);
            }
            assert_seqs_equal!(bytes@ == bytes_of_chars(pt@));
        }
        if bytes.len() > 65535 {
            return Err(HeError::EncryptError);
        }
        Ok(FheAsciiString { key_id: sk.id_number(), bytes })
    }

    fn decrypt(sk: &ClientKey, ct: &FheAsciiString) -> (r: Result<String, HeError>)
        ensures
            ct.key() == sk.id() ==> (r matches Ok(s) && s@ == chars_of_bytes(ct@)),
            ct.key() != sk.id() ==> (r matches Err(e) && e is DecryptError),
    {
        if ct.key_id != sk.id_number() {
            return Err(HeError::DecryptError);
        }
        proof {
            use_type_invariant(ct);
        }
        let s = ascii_string_from_bytes(&ct.bytes);
        proof {
            assert_seqs_equal!(s@ == chars_of_bytes(ct@));
        }
        Ok(s)
    }

    /// Strings have no additive operation.
    fn add(_ct1: &FheAsciiString, _ct2: &FheAsciiString) -> (r: Result<FheAsciiString, HeError>)
        ensures
            r matches Err(e) && e is UnsupportedOperation,
    {
        Err(HeError::UnsupportedOperation("add is not supported for strings".to_owned()))
    }

    /// Strings have no multiplicative operation.
    fn mul(_ct1: &FheAsciiString, _ct2: &FheAsciiString) -> (r: Result<FheAsciiString, HeError>)
        ensures
            r matches Err(e) && e is UnsupportedOperation,
    {
        Err(HeError::UnsupportedOperation("mul is not supported for strings".to_owned()))
    }
}

impl TfheString {
    /// Compares two encrypted ASCII strings for equality.
    pub fn eq_enc(a: &FheAsciiString, b: &FheAsciiString) -> (r: FheBool)
        requires
            a.key() == b.key(),
        ensures
            r.key() == a.key(),
            r.value() == (a@ == b@),
    {
        make_fhe_bool(a.key_id, bytes_equal(&a.bytes, &b.bytes))
    }

    /// Compares two encrypted ASCII strings for inequality.
    pub fn ne_enc(a: &FheAsciiString, b: &FheAsciiString) -> (r: FheBool)
        requires
            a.key() == b.key(),
        ensures
            r.key() == a.key(),
            r.value() == (a@ != b@),
    {
        make_fhe_bool(a.key_id, !bytes_equal(&a.bytes, &b.bytes))
    }

    /// Returns the encrypted length of the ASCII string.
    pub fn len_enc(s: &FheAsciiString) -> (r: FheStringLen)
        ensures
            r matches FheStringLen::NoPadding(l) && l == s@.len(),
    {
        proof {
            use_type_invariant(s);
        }
        FheStringLen::NoPadding(s.bytes.len() as u16)
    }

    /// Returns whether the encrypted ASCII string is empty.
    pub fn is_empty_enc(s: &FheAsciiString) -> (r: FheStringIsEmpty)
        ensures
            r matches FheStringIsEmpty::NoPadding(b) && b == (s@.len() == 0),
    {
        FheStringIsEmpty::NoPadding(s.bytes.len() == 0)
    }

    /// Converts all encrypted characters to lowercase.
    pub fn to_lowercase_enc(s: &FheAsciiString) -> (r: FheAsciiString)
        ensures
            r.key() == s.key(),
            r@ == s@.map_values(|b: u8| to_lower_byte(b)),
    {
        proof {
            use_type_invariant(s);
        }
        let mut out: Vec<u8> = Vec::new();
        let mut i: usize = 0;
        while i < s.bytes.len()
            invariant
                i <= s@.len(),
                s@.len() <= 65535,
                forall|j: int| 0 <= j < s@.len() ==> s@[j] < 128,
                out@.len() == i,
                forall|j: int| 0 <= j < i ==> out@[j] == to_lower_byte(s@[j]),
            decreases s@.len() - i,
        {
            let b = s.bytes[i];
            if 65 <= b && b <= 90 {
                out.push(b + 32);
            } else {
                out.push(b);
            }
            i = i + 1;
        }
        proof {
            assert_seqs_equal!(out@ == s@.map_values(|b: u8| to_lower_byte(b)));
        }
        FheAsciiString { key_id: s.key_id, bytes: out }
    }

    /// Converts all encrypted characters to uppercase.
    pub fn to_uppercase_enc(s: &FheAsciiString) -> (r: FheAsciiString)
        ensures
            r.key() == s.key(),
            r@ == s@.map_values(|b: u8| to_upper_byte(b)),
    {
        proof {
            use_type_invariant(s);
        }
        let mut out: Vec<u8> = Vec::new();
        let mut i: usize = 0;
        while i < s.bytes.len()
            invariant
                i <= s@.len(),
                s@.len() <= 65535,
                forall|j: int| 0 <= j < s@.len() ==> s@[j] < 128,
                out@.len() == i,
                forall|j: int| 0 <= j < i ==> out@[j] == to_upper_byte(s@[j]),
            decreases s@.len() - i,
        {
            let b = s.bytes[i];
            if 97 <= b && b <= 122 {
                out.push(b - 32);
            } else {
                out.push(b);
            }
            i = i + 1;
        }
        proof {
            assert_seqs_equal!(out@ == s@.map_values(|b: u8| to_upper_byte(b)));
        }
        FheAsciiString { key_id: s.key_id, bytes: out }
    }

    /// Trims encrypted whitespace from both ends.
    pub fn trim_enc(s: &FheAsciiString) -> (r: FheAsciiString)
        ensures
            r.key() == s.key(),
            r@ == trim_bytes(s@),
    {
        proof {
            use_type_invariant(s);
        }
        let started = trim_start_vec(&s.bytes);
        let ended = trim_end_vec(&started);
        FheAsciiString { key_id: s.key_id, bytes: ended }
    }

    /// Trims encrypted whitespace from the start.
    pub fn trim_start_enc(s: &FheAsciiString) -> (r: FheAsciiString)
        ensures
            r.key() == s.key(),
            r@ == trim_start_bytes(s@),
    {
        proof {
            use_type_invariant(s);
        }
        let bytes = trim_start_vec(&s.bytes);
        FheAsciiString { key_id: s.key_id, bytes }
    }

    /// Trims encrypted whitespace from the end.
    pub fn trim_end_enc(s: &FheAsciiString) -> (r: FheAsciiString)
        ensures
            r.key() == s.key(),
            r@ == trim_end_bytes(s@),
    {
        proof {
            use_type_invariant(s);
        }
        let bytes = trim_end_vec(&s.bytes);
        FheAsciiString { key_id: s.key_id, bytes }
    }

    /// Removes a clear prefix from the encrypted string if present; the flag
    /// says whether it was.
    pub fn strip_prefix_enc(s: &FheAsciiString, prefix: &ClearString) -> (r: (
        FheAsciiString,
        FheBool,
    ))
        ensures
            r.0.key() == s.key(),
            r.1.key() == s.key(),
            r.1.value() == starts_with_bytes(s@, prefix@),
            starts_with_bytes(s@, prefix@) ==> r.0@ == s@.subrange(
                prefix@.len() as int,
                s@.len() as int,
            ),
            !starts_with_bytes(s@, prefix@) ==> r.0@ == s@,
    {
        proof {
            use_type_invariant(s);
        }
        if has_prefix(&s.bytes, &prefix.bytes) {
            let bytes = slice_to_vec(slice_subrange(s.bytes.as_slice(), prefix.bytes.len(), s.bytes.len()));
            (FheAsciiString { key_id: s.key_id, bytes }, make_fhe_bool(s.key_id, true))
        } else {
            let bytes = slice_to_vec(s.bytes.as_slice());
            (FheAsciiString { key_id: s.key_id, bytes }, make_fhe_bool(s.key_id, false))
        }
    }

    /// Removes a clear suffix from the encrypted string if present; the flag
    /// says whether it was.
    pub fn strip_suffix_enc(s: &FheAsciiString, suffix: &ClearString) -> (r: (
        FheAsciiString,
        FheBool,
    ))
        ensures
            r.0.key() == s.key(),
            r.1.key() == s.key(),
            r.1.value() == ends_with_bytes(s@, suffix@),
            ends_with_bytes(s@, suffix@) ==> r.0@ == s@.subrange(
                0,
                s@.len() - suffix@.len(),
            ),
            !ends_with_bytes(s@, suffix@) ==> r.0@ == s@,
    {
        proof {
            use_type_invariant(s);
        }
        if has_suffix(&s.bytes, &suffix.bytes) {
            let bytes = slice_to_vec(slice_subrange(s.bytes.as_slice(), 0, s.bytes.len() - suffix.bytes.len()));
            (FheAsciiString { key_id: s.key_id, bytes }, make_fhe_bool(s.key_id, true))
        } else {
            let bytes = slice_to_vec(s.bytes.as_slice());
            (FheAsciiString { key_id: s.key_id, bytes }, make_fhe_bool(s.key_id, false))
        }
    }

    /// Decrypts an encrypted ASCII string.
    pub fn decrypt_string(ct: &FheAsciiString, ck: &ClientKey) -> (r: String)
        requires
            ct.key() == ck.id(),
        ensures
            r@ == chars_of_bytes(ct@),
    {
        proof {
            use_type_invariant(ct);
        }
        let s = ascii_string_from_bytes(&ct.bytes);
        proof {
            assert_seqs_equal!(s@ == chars_of_bytes(ct@));
        }
        s
    }

    /// Decrypts an encrypted boolean value.
    pub fn decrypt_bool(ct: &FheBool, ck: &ClientKey) -> (r: bool)
        requires
            ct.key() == ck.id(),
        ensures
            r == ct.value(),
    {
        match TfheBool::decrypt(ck, ct) {
            Ok(b) => b,
            Err(_) => {
                proof {
                    assert(false);
                }
                false
            },
        }
    }

    /// Decrypts an encrypted string length.
    pub fn decrypt_len(len: &FheStringLen, ck: &ClientKey) -> (r: u16)
        requires
            len matches FheStringLen::Padding(ct) ==> ct.key() == ck.id() && ct.value() <= 65535,
        ensures
            len matches FheStringLen::NoPadding(l) ==> r == l,
            len matches FheStringLen::Padding(ct) ==> r == ct.value(),
    {
        match len {
            FheStringLen::NoPadding(l) => *l,
            FheStringLen::Padding(enc_l) => {
                match TfheU32::decrypt(ck, enc_l) {
                    Ok(w) => w as u16,
                    Err(_) => {
                        proof {
                            assert(false);
                        }
                        0
                    },
                }
            },
        }
    }

    /// Decrypts an encrypted emptiness flag.
    pub fn decrypt_is_empty(flag: &FheStringIsEmpty, ck: &ClientKey) -> (r: bool)
        requires
            flag matches FheStringIsEmpty::Padding(ct) ==> ct.key() == ck.id(),
        ensures
            flag matches FheStringIsEmpty::NoPadding(b) ==> r == b,
            flag matches FheStringIsEmpty::Padding(ct) ==> r == ct.value(),
    {
        match flag {
            FheStringIsEmpty::NoPadding(v) => *v,
            FheStringIsEmpty::Padding(enc_v) => {
                match TfheBool::decrypt(ck, enc_v) {
                    Ok(b) => b,
                    Err(_) => {
                        proof {
                            assert(false);
                        }
                        false
                    },
                }
            },
        }
    }
}

} // verus!
