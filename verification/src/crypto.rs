//! Selective encryption of values: AES-256-GCM under a per-project key, with
//! the nonce and ciphertext stored as Base64 inside `ENC[aes:<level>,...]`.
use vstd::prelude::*;

use aes_gcm::aead::rand_core::RngCore;
use aes_gcm::aead::{Aead, KeyInit, OsRng};
use aes_gcm::{Aes256Gcm, Nonce};
use base64::engine::general_purpose::STANDARD as BASE64;
use base64::Engine;

use crate::text::{
    chars_of, concat, has_prefix, slice_chars, str_starts_with, string_of, trim, trim_start,
    trim_str,
};

verus! {

// ---------------------------------------------------------------------------
// Sensitivity levels and the envelope format
// ---------------------------------------------------------------------------

/// Sensitivity level for encrypted values.
#[derive(Debug, Clone, Copy, PartialEq, Eq, Structural)]
pub enum SensitivityLevel {
    Sensitive,
    Secret,
}

/// The name of a level as it appears in the envelope.
pub open spec fn tag_of(level: SensitivityLevel) -> Seq<char> {
    match level {
        SensitivityLevel::Sensitive => "sensitive"@,
        SensitivityLevel::Secret => "secret"@,
    }
}

/// The start of an encrypted value of the given level.
pub open spec fn level_prefix(level: SensitivityLevel) -> Seq<char> {
    match level {
        SensitivityLevel::Sensitive => "ENC[aes:sensitive,"@,
        SensitivityLevel::Secret => "ENC[aes:secret,"@,
    }
}

impl SensitivityLevel {
    /// The level's name: `sensitive` or `secret`.
    pub fn tag(self) -> (r: &'static str)
        ensures
            r@ == tag_of(self),
    {
        match self {
            SensitivityLevel::Sensitive => "sensitive",
            SensitivityLevel::Secret => "secret",
        }
    }
}

/// The level an encrypted value declares, if it is an encrypted value.
pub open spec fn spec_parse_sensitivity(value: Seq<char>) -> Option<SensitivityLevel> {
    if has_prefix(value, "ENC[aes:sensitive,"@) {
        Some(SensitivityLevel::Sensitive)
    } else if has_prefix(value, "ENC[aes:secret,"@) {
        Some(SensitivityLevel::Secret)
    } else {
        None
    }
}

/// Parse the sensitivity level from an encrypted value string.
pub fn parse_sensitivity(value: &str) -> (r: Option<SensitivityLevel>)
    ensures
        r == spec_parse_sensitivity(value@),
{
    if str_starts_with(value, "ENC[aes:sensitive,") {
        Some(SensitivityLevel::Sensitive)
    } else if str_starts_with(value, "ENC[aes:secret,") {
        Some(SensitivityLevel::Secret)
    } else {
        None
    }
}

/// Whether a stored value is in encrypted form (`ENC[aes:...`).
pub open spec fn is_encrypted(value: Seq<char>) -> bool {
    has_prefix(value, "ENC[aes:"@)
}

/// Whether a stored value is in encrypted form (`ENC[aes:...`).
pub fn looks_encrypted(value: &str) -> (r: bool)
    ensures
        r == is_encrypted(value@),
{
    str_starts_with(value, "ENC[aes:")
}

// ---------------------------------------------------------------------------
// Outside computations: AES-256-GCM, Base64, UTF-8, randomness
// ---------------------------------------------------------------------------

/// The ciphertext (with its 16-byte tag) that AES-256-GCM produces for a key,
/// a nonce and a plaintext, with no associated data.
pub uninterp spec fn aes_seal(key: Seq<u8>, nonce: Seq<u8>, plaintext: Seq<u8>) -> Seq<u8>;

/// What AES-256-GCM decryption returns for a key, a nonce and a ciphertext:
/// the plaintext, or nothing when authentication fails.
pub uninterp spec fn aes_open(key: Seq<u8>, nonce: Seq<u8>, ciphertext: Seq<u8>) -> Option<Seq<u8>>;

/// The largest plaintext, in bytes, that AES-GCM encrypts.
pub open spec fn aes_max_plaintext() -> int {
    0x10_0000_0000
}

/// `Aead::encrypt` of `Aes256Gcm` (aes-gcm) with no associated data. It fails
/// exactly when the plaintext is longer than 2^36 bytes; otherwise the
/// ciphertext is the plaintext's length plus the 16-byte tag, and decrypting it
/// with the same key and nonce gives the plaintext back.
#[verifier::external_body]
fn aes256gcm_encrypt(key: &[u8], nonce: &[u8], plaintext: &[u8]) -> (r: Option<Vec<u8>>)
    requires
        key@.len() == 32,
        nonce@.len() == 12,
    ensures
        r is Some <==> plaintext@.len() <= aes_max_plaintext(),
        r matches Some(ct) ==> ct@ == aes_seal(key@, nonce@, plaintext@),
        r matches Some(ct) ==> ct@.len() == plaintext@.len() + 16,
        r matches Some(ct) ==> aes_open(key@, nonce@, ct@) == Some(plaintext@),
{
    let cipher = Aes256Gcm::new(aes_gcm::Key::<Aes256Gcm>::from_slice(key));
    cipher.encrypt(Nonce::from_slice(nonce), plaintext).ok()
}

/// `Aead::decrypt` of `Aes256Gcm` (aes-gcm) with no associated data: the
/// plaintext when the ciphertext authenticates under the key and nonce. A
/// ciphertext shorter than the 16-byte tag never does.
#[verifier::external_body]
fn aes256gcm_decrypt(key: &[u8], nonce: &[u8], ciphertext: &[u8]) -> (r: Option<Vec<u8>>)
    requires
        key@.len() == 32,
        nonce@.len() == 12,
    ensures
        r is Some <==> aes_open(key@, nonce@, ciphertext@) is Some,
        r matches Some(pt) ==> aes_open(key@, nonce@, ciphertext@) == Some(pt@),
        ciphertext@.len() < 16 ==> r is None,
{
    let cipher = Aes256Gcm::new(aes_gcm::Key::<Aes256Gcm>::from_slice(key));
    cipher.decrypt(Nonce::from_slice(nonce), ciphertext).ok()
}

/// The standard (padded) Base64 text of some bytes.
pub uninterp spec fn b64_encode(bytes: Seq<u8>) -> Seq<char>;

/// What standard Base64 decoding returns for a text: the bytes, or nothing
/// when the text is not valid Base64.
pub uninterp spec fn b64_decode(text: Seq<char>) -> Option<Seq<u8>>;

/// A character of the standard Base64 alphabet, or the padding `=`.
pub open spec fn is_b64_char(c: char) -> bool {
    ('A' <= c && c <= 'Z') || ('a' <= c && c <= 'z') || ('0' <= c && c <= '9') || c == '+'
        || c == '/' || c == '='
}

/// The length of the padded Base64 text of `n` bytes: four characters for
/// each group of three bytes, and four more for a final partial group.
pub open spec fn b64_encoded_len(n: int) -> int {
    n / 3 * 4 + if n % 3 > 0 {
        4int
    } else {
        0int
    }
}

/// `Engine::encode` of base64's `STANDARD` engine. Its output is made of the
/// standard alphabet and `=`, and decoding it gives the bytes back. It panics
/// when the length of the text would not fit in a `usize`.
#[verifier::external_body]
fn base64_encode(bytes: &[u8]) -> (r: String)
    requires
        b64_encoded_len(bytes@.len() as int) <= usize::MAX,
    ensures
        r@ == b64_encode(bytes@),
        b64_decode(r@) == Some(bytes@),
        forall|i: int| 0 <= i < r@.len() ==> is_b64_char(#[trigger] r@[i]),
{
    BASE64.encode(bytes)
}

/// `Engine::decode` of base64's `STANDARD` engine.
#[verifier::external_body]
fn base64_decode(text: &str) -> (r: Option<Vec<u8>>)
    ensures
        r is Some <==> b64_decode(text@) is Some,
        r matches Some(b) ==> b64_decode(text@) == Some(b@),
{
    BASE64.decode(text).ok()
}

/// std's `String::from_utf8`: the text when the bytes are valid UTF-8.
#[verifier::external_body]
fn string_from_utf8(bytes: Vec<u8>) -> (r: Option<String>)
    ensures
        r is Some <==> vstd::utf8::valid_utf8(bytes@),
        r matches Some(s) ==> s@ == vstd::utf8::decode_utf8(bytes@),
{
    String::from_utf8(bytes).ok()
}

/// `n` bytes from the operating system's random source (`OsRng::fill_bytes`
/// of rand_core, as re-exported by aes-gcm). Only the length is known; the
/// call panics if the operating system cannot supply randomness.
#[verifier::external_body]
pub(crate) fn random_bytes(n: usize) -> (r: Vec<u8>)
    ensures
        r@.len() == n,
{
    let mut v = vec![0u8; n];
    OsRng.fill_bytes(&mut v);
    v
}

// ---------------------------------------------------------------------------
// Keys
// ---------------------------------------------------------------------------

/// A 256-bit AES key.
pub struct EncryptionKey {
    pub bytes: Vec<u8>,
}

impl EncryptionKey {
    pub open spec fn wf(&self) -> bool {
        self.bytes@.len() == 32
    }
}

/// Why a key file could not be read as a key.
#[derive(Debug, Clone, Copy, PartialEq, Eq, Structural)]
pub enum KeyError {
    /// The file is not Base64.
    InvalidEncoding,
    /// The decoded key is not 32 bytes long.
    InvalidLength,
}

/// The key held in a key file's text: Base64 of 32 bytes, surrounding
/// whitespace ignored.
pub open spec fn spec_decode_key(text: Seq<char>) -> Result<Seq<u8>, KeyError> {
    match b64_decode(trim(text)) {
        None => Err(KeyError::InvalidEncoding),
        Some(b) => if b.len() == 32 {
            Ok(b)
        } else {
            Err(KeyError::InvalidLength)
        },
    }
}

/// Decode the contents of a key file.
pub fn decode_key(text: &str) -> (r: Result<EncryptionKey, KeyError>)
    ensures
        r matches Ok(k) ==> k.wf() && spec_decode_key(text@) == Ok::<Seq<u8>, KeyError>(k.bytes@),
        r matches Err(e) ==> spec_decode_key(text@) == Err::<Seq<u8>, KeyError>(e),
{
    let t = trim_str(text);
    match base64_decode(t.as_str()) {
        None => Err(KeyError::InvalidEncoding),
        Some(b) => {
            if b.len() == 32 {
                Ok(EncryptionKey { bytes: b })
            } else {
                Err(KeyError::InvalidLength)
            }
        },
    }
}

/// The text of a key file for `key`: its Base64.
pub fn encode_key(key: &EncryptionKey) -> (r: String)
    requires
        key.wf(),
    ensures
        r@ == b64_encode(key.bytes@),
        spec_decode_key(r@) == Ok::<Seq<u8>, KeyError>(key.bytes@),
{
    let r = base64_encode(key.bytes.as_slice());
    proof {
        lemma_trim_no_ws(r@);
    }
    r
}

proof fn lemma_trim_no_ws(s: Seq<char>)
    requires
        forall|i: int| 0 <= i < s.len() ==> is_b64_char(#[trigger] s[i]),
    ensures
        trim(s) == s,
{
    if s.len() > 0 {
        assert(is_b64_char(s[0]));
        assert(trim_start(s) == s);
        assert(is_b64_char(s.last()));
    }
}

/// A new random key (32 bytes from the operating system).
pub fn generate_key() -> (r: EncryptionKey)
    ensures
        r.wf(),
{
    EncryptionKey { bytes: random_bytes(32) }
}

/// The two lowercase hex digits of a byte, high nibble first.
pub open spec fn hex_digit(n: int) -> char {
    if n < 10 {
        ((n + 48) as u8) as char
    } else {
        ((n + 87) as u8) as char
    }
}

/// Lowercase hexadecimal text of bytes, two digits per byte.
pub open spec fn hex_of(bytes: Seq<u8>) -> Seq<char>
    decreases bytes.len(),
{
    if bytes.len() == 0 {
        Seq::empty()
    } else {
        hex_of(bytes.drop_last()).push(hex_digit((bytes.last() / 16) as int)).push(
            hex_digit((bytes.last() % 16) as int),
        )
    }
}

fn hex_char(n: u8) -> (c: char)
    requires
        n < 16,
    ensures
        c == hex_digit(n as int),
{
    if n < 10 {
        ((n + 48) as u8) as char
    } else {
        ((n + 87) as u8) as char
    }
}

/// Lowercase hexadecimal text of bytes (a key ID is that of 4 random bytes).
pub fn hex_string(bytes: &Vec<u8>) -> (r: String)
    ensures
        r@ == hex_of(bytes@),
{
    let mut out: Vec<char> = Vec::new();
    let mut i: usize = 0;
    while i < bytes.len()
        invariant
            i <= bytes.len(),
            out@ == hex_of(bytes@.take(i as int)),
        decreases bytes.len() - i,
    {
        let b = bytes[i];
        out.push(hex_char(b / 16));
        out.push(hex_char(b % 16));
        i = i + 1;
        assert(bytes@.take(i as int).drop_last() =~= bytes@.take((i - 1) as int));
    }
    assert(bytes@.take(bytes.len() as int) =~= bytes@);
    string_of(&out)
}

/// A new random key ID: 8 lowercase hex digits.
pub fn generate_key_id() -> (r: String)
    ensures
        r@.len() == 8,
        exists|b: Seq<u8>| b.len() == 4 && r@ == #[trigger] hex_of(b),
{
    let b = random_bytes(4);
    let r = hex_string(&b);
    proof {
        lemma_hex_len(b@);
    }
    assert(b@.len() == 4 && r@ == hex_of(b@));
    r
}

proof fn lemma_hex_len(b: Seq<u8>)
    ensures
        hex_of(b).len() == 2 * b.len(),
    decreases b.len(),
{
    if b.len() > 0 {
        lemma_hex_len(b.drop_last());
    }
}

// ---------------------------------------------------------------------------
// Encryption and decryption of values
// ---------------------------------------------------------------------------

/// Why a value could not be encrypted or decrypted.
#[derive(Debug, Clone, Copy, PartialEq, Eq, Structural)]
pub enum CryptoError {
    /// The plaintext is too long for AES-GCM.
    EncryptionFailed,
    /// The value is not of the form `ENC[aes:<level>,<base64>]`.
    InvalidFormat,
    /// The payload is not Base64.
    InvalidBase64,
    /// The payload is too short to hold a nonce and a ciphertext.
    TooShort,
    /// The ciphertext does not authenticate under the key (wrong key?).
    DecryptionFailed,
    /// The decrypted bytes are not UTF-8.
    InvalidUtf8,
}

/// The bytes of a text (UTF-8).
pub open spec fn utf8(s: Seq<char>) -> Seq<u8> {
    vstd::utf8::encode_utf8(s)
}

/// The stored form of `plaintext` encrypted at `level` under `key` with `nonce`.
pub open spec fn sealed(level: SensitivityLevel, key: Seq<u8>, nonce: Seq<u8>, plaintext: Seq<char>) -> Seq<char> {
    level_prefix(level) + b64_encode(nonce + aes_seal(key, nonce, utf8(plaintext))) + "]"@
}

/// The Base64 payload of a stored encrypted value, if it has the envelope form.
pub open spec fn envelope_payload(value: Seq<char>) -> Option<Seq<char>> {
    let inner = if has_prefix(value, "ENC[aes:sensitive,"@) {
        Some(value.skip("ENC[aes:sensitive,"@.len() as int))
    } else if has_prefix(value, "ENC[aes:secret,"@) {
        Some(value.skip("ENC[aes:secret,"@.len() as int))
    } else {
        None
    };
    match inner {
        Some(x) => if x.len() > 0 && x.last() == ']' {
            Some(x.drop_last())
        } else {
            None
        },
        None => None,
    }
}

/// What decrypting a stored value under `key` gives.
pub open spec fn spec_decrypt(value: Seq<char>, key: Seq<u8>) -> Result<Seq<char>, CryptoError> {
    match envelope_payload(value) {
        None => Err(CryptoError::InvalidFormat),
        Some(p) => match b64_decode(p) {
            None => Err(CryptoError::InvalidBase64),
            Some(bytes) => if bytes.len() <= 12 {
                Err(CryptoError::TooShort)
            } else {
                match aes_open(key, bytes.take(12), bytes.skip(12)) {
                    None => Err(CryptoError::DecryptionFailed),
                    Some(pt) => if vstd::utf8::valid_utf8(pt) {
                        Ok(vstd::utf8::decode_utf8(pt))
                    } else {
                        Err(CryptoError::InvalidUtf8)
                    },
                }
            },
        },
    }
}

/// The literal start of an encrypted value of `level`.
fn prefix_for(level: SensitivityLevel) -> (r: &'static str)
    ensures
        r@ == level_prefix(level),
{
    match level {
        SensitivityLevel::Sensitive => "ENC[aes:sensitive,",
        SensitivityLevel::Secret => "ENC[aes:secret,",
    }
}

/// Whether a plaintext of `n` bytes can be encrypted: AES-GCM takes it, and
/// the Base64 text of its nonce, ciphertext and tag (`n + 28` bytes) fits in
/// memory.
pub open spec fn encryptable(n: int) -> bool {
    n <= aes_max_plaintext() && b64_encoded_len(n + 28) <= usize::MAX
}

/// The Base64 text of `m` bytes is at least as long as they are, from nine on.
proof fn lemma_b64_grows(m: int)
    requires
        m >= 9,
    ensures
        b64_encoded_len(m) >= m,
{
    let q = m / 3;
    let r = m % 3;
    assert(m == 3 * q + r && 0 <= r < 3 && q >= 3) by (nonlinear_arith)
        requires
            m >= 9,
            q == m / 3,
            r == m % 3,
    ;
}

/// Whether the Base64 text of `m` bytes fits in a `usize`.
fn b64_fits(m: usize) -> (r: bool)
    ensures
        r == (b64_encoded_len(m as int) <= usize::MAX),
{
    let chunks = m / 3;
    match chunks.checked_mul(4) {
        None => false,
        Some(full) => {
            if m % 3 > 0 {
                full.checked_add(4).is_some()
            } else {
                true
            }
        },
    }
}

/// Encrypt `plaintext` under `key` with the given 12-byte nonce.
pub fn encrypt_with_nonce(plaintext: &str, level: SensitivityLevel, key: &EncryptionKey, nonce: &Vec<u8>) -> (r: Result<String, CryptoError>)
    requires
        key.wf(),
        nonce@.len() == 12,
    ensures
        r is Ok <==> encryptable(utf8(plaintext@).len() as int),
        r matches Ok(s) ==> s@ == sealed(level, key.bytes@, nonce@, plaintext@),
        r matches Ok(s) ==> spec_parse_sensitivity(s@) == Some(level) && is_encrypted(s@),
        r matches Ok(s) ==> spec_decrypt(s@, key.bytes@) == Ok::<Seq<char>, CryptoError>(
            plaintext@,
        ),
        r matches Err(e) ==> e == CryptoError::EncryptionFailed,
{
    let bytes = plaintext.as_bytes();
    let n = bytes.len();
    if n > usize::MAX - 28 {
        proof {
            lemma_b64_grows(n + 28);
        }
        return Err(CryptoError::EncryptionFailed);
    }
    if !b64_fits(n + 28) {
        return Err(CryptoError::EncryptionFailed);
    }
    let ct = match aes256gcm_encrypt(key.bytes.as_slice(), nonce.as_slice(), bytes) {
        Some(ct) => ct,
        None => {
            return Err(CryptoError::EncryptionFailed);
        },
    };
    let mut combined: Vec<u8> = Vec::new();
    let mut i: usize = 0;
    while i < 12
        invariant
            i <= 12,
            nonce@.len() == 12,
            combined@ == nonce@.take(i as int),
        decreases 12 - i,
    {
        combined.push(nonce[i]);
        i = i + 1;
        assert(nonce@.take(i as int) =~= nonce@.take((i - 1) as int).push(nonce@[i - 1]));
    }
    let mut j: usize = 0;
    while j < ct.len()
        invariant
            j <= ct.len(),
            nonce@.len() == 12,
            combined@ == nonce@ + ct@.take(j as int),
        decreases ct.len() - j,
    {
        combined.push(ct[j]);
        j = j + 1;
        assert(ct@.take(j as int) =~= ct@.take((j - 1) as int).push(ct@[j - 1]));
    }
    assert(nonce@.take(12) =~= nonce@);
    assert(ct@.take(ct.len() as int) =~= ct@);
    let encoded = base64_encode(combined.as_slice());
    let head = concat(prefix_for(level), encoded.as_str());
    let out = concat(head.as_str(), "]");
    proof {
        lemma_sealed_declares_level(level, key.bytes@, nonce@, plaintext@);
        lemma_decrypt_inverts_seal(level, key.bytes@, nonce@, plaintext@);
    }
    Ok(out)
}

/// Encrypt `plaintext` at `level` under `key`, with a fresh random nonce.
pub fn encrypt_value(plaintext: &str, level: SensitivityLevel, key: &EncryptionKey) -> (r: Result<String, CryptoError>)
    requires
        key.wf(),
    ensures
        r is Ok <==> encryptable(utf8(plaintext@).len() as int),
        r matches Ok(s) ==> exists|nonce: Seq<u8>|
            nonce.len() == 12 && s@ == #[trigger] sealed(level, key.bytes@, nonce, plaintext@),
        r matches Ok(s) ==> spec_parse_sensitivity(s@) == Some(level) && is_encrypted(s@),
        r matches Ok(s) ==> spec_decrypt(s@, key.bytes@) == Ok::<Seq<char>, CryptoError>(
            plaintext@,
        ),
        r matches Err(e) ==> e == CryptoError::EncryptionFailed,
{
    let nonce = random_bytes(12);
    encrypt_with_nonce(plaintext, level, key, &nonce)
}

/// Decrypt a stored encrypted value under `key`.
pub fn decrypt_value(encrypted: &str, key: &EncryptionKey) -> (r: Result<String, CryptoError>)
    requires
        key.wf(),
    ensures
        r matches Ok(s) ==> spec_decrypt(encrypted@, key.bytes@) == Ok::<Seq<char>, CryptoError>(s@),
        r matches Err(e) ==> spec_decrypt(encrypted@, key.bytes@) == Err::<Seq<char>, CryptoError>(e),
{
    let v = chars_of(encrypted);
    let p1 = chars_of("ENC[aes:sensitive,");
    let p2 = chars_of("ENC[aes:secret,");
    let ghost vv = encrypted@;
    let start: usize;
    if str_starts_with(encrypted, "ENC[aes:sensitive,") {
        start = p1.len();
    } else if str_starts_with(encrypted, "ENC[aes:secret,") {
        start = p2.len();
    } else {
        return Err(CryptoError::InvalidFormat);
    }
    assert(start <= v.len());
    if v.len() == start || v[v.len() - 1] != ']' {
        return Err(CryptoError::InvalidFormat);
    }
    let payload_chars = slice_chars(&v, start, v.len() - 1);
    proof {
        let x = vv.skip(start as int);
        assert(x.last() == v@[v.len() - 1]);
        assert(payload_chars@ =~= x.drop_last());
    }
    let payload = string_of(&payload_chars);
    let combined = match base64_decode(payload.as_str()) {
        None => {
            return Err(CryptoError::InvalidBase64);
        },
        Some(b) => b,
    };
    if combined.len() <= 12 {
        return Err(CryptoError::TooShort);
    }
    let mut nonce: Vec<u8> = Vec::new();
    let mut ct: Vec<u8> = Vec::new();
    let mut i: usize = 0;
    while i < combined.len()
        invariant
            i <= combined.len(),
            combined@.len() > 12,
            i <= 12 ==> nonce@ == combined@.take(i as int) && ct@.len() == 0,
            i > 12 ==> nonce@ == combined@.take(12) && ct@ == combined@.subrange(12, i as int),
        decreases combined.len() - i,
    {
        if i < 12 {
            nonce.push(combined[i]);
            assert(combined@.take(i + 1) =~= combined@.take(i as int).push(combined@[i as int]));
        } else {
            ct.push(combined[i]);
            assert(combined@.subrange(12, i + 1) =~= combined@.subrange(12, i as int).push(
                combined@[i as int],
            ));
        }
        i = i + 1;
    }
    assert(ct@ =~= combined@.skip(12));
    let pt = match aes256gcm_decrypt(key.bytes.as_slice(), nonce.as_slice(), ct.as_slice()) {
        None => {
            return Err(CryptoError::DecryptionFailed);
        },
        Some(pt) => pt,
    };
    match string_from_utf8(pt) {
        None => Err(CryptoError::InvalidUtf8),
        Some(s) => Ok(s),
    }
}

// ---------------------------------------------------------------------------
// Laws
// ---------------------------------------------------------------------------

proof fn lemma_prefixes_differ()
    ensures
        !has_prefix("ENC[aes:secret,"@, "ENC[aes:sensitive,"@),
        "ENC[aes:sensitive,"@.len() == 18,
        "ENC[aes:secret,"@.len() == 15,
        has_prefix("ENC[aes:sensitive,"@, "ENC[aes:"@),
        has_prefix("ENC[aes:secret,"@, "ENC[aes:"@),
{
    reveal_strlit("ENC[aes:secret,");
    reveal_strlit("ENC[aes:sensitive,");
    reveal_strlit("ENC[aes:");
    assert("ENC[aes:secret,"@[10] != "ENC[aes:sensitive,"@[10]);
    assert("ENC[aes:sensitive,"@.take(8) =~= "ENC[aes:"@);
    assert("ENC[aes:secret,"@.take(8) =~= "ENC[aes:"@);
}

/// A value that declares a level is in encrypted form.
pub proof fn lemma_declared_is_encrypted(value: Seq<char>)
    requires
        spec_parse_sensitivity(value) is Some,
    ensures
        is_encrypted(value),
{
    lemma_prefixes_differ();
    let q = "ENC[aes:"@;
    let p = if has_prefix(value, "ENC[aes:sensitive,"@) {
        "ENC[aes:sensitive,"@
    } else {
        "ENC[aes:secret,"@
    };
    assert(value.take(q.len() as int) =~= p.take(q.len() as int));
}

/// Every value sealed at a level declares that level, and is in encrypted form.
proof fn lemma_sealed_declares_level(level: SensitivityLevel, key: Seq<u8>, nonce: Seq<u8>, plaintext: Seq<char>)
    ensures
        spec_parse_sensitivity(sealed(level, key, nonce, plaintext)) == Some(level),
        is_encrypted(sealed(level, key, nonce, plaintext)),
{
    lemma_prefixes_differ();
    let s = sealed(level, key, nonce, plaintext);
    let p = level_prefix(level);
    assert(s.take(p.len() as int) =~= p);
    let q = "ENC[aes:"@;
    assert(s.take(q.len() as int) =~= p.take(q.len() as int));
    if level == SensitivityLevel::Secret {
        reveal_strlit("ENC[aes:secret,");
        reveal_strlit("ENC[aes:sensitive,");
        let ps = "ENC[aes:sensitive,"@;
        if has_prefix(s, ps) {
            assert(s[10] == ps[10]);
            assert(s[10] == p[10]);
            assert(false);
        }
    }
}

/// Decrypting a sealed value under the same key gives the plaintext back, given
/// what AES-GCM and Base64 promise of their round trips.
proof fn lemma_decrypt_inverts_seal(level: SensitivityLevel, key: Seq<u8>, nonce: Seq<u8>, plaintext: Seq<char>)
    requires
        key.len() == 32,
        nonce.len() == 12,
        aes_open(key, nonce, aes_seal(key, nonce, utf8(plaintext))) == Some(utf8(plaintext)),
        aes_seal(key, nonce, utf8(plaintext)).len() == utf8(plaintext).len() + 16,
        b64_decode(b64_encode(nonce + aes_seal(key, nonce, utf8(plaintext)))) == Some(
            nonce + aes_seal(key, nonce, utf8(plaintext)),
        ),
    ensures
        spec_decrypt(sealed(level, key, nonce, plaintext), key) == Ok::<Seq<char>, CryptoError>(
            plaintext,
        ),
{
    lemma_prefixes_differ();
    lemma_sealed_declares_level(level, key, nonce, plaintext);
    let ct = aes_seal(key, nonce, utf8(plaintext));
    let b = b64_encode(nonce + ct);
    let s = sealed(level, key, nonce, plaintext);
    let p = level_prefix(level);
    reveal_strlit("]");
    assert(s.skip(p.len() as int) =~= b + "]"@);
    assert((b + "]"@).drop_last() =~= b);
    assert((nonce + ct).take(12) =~= nonce);
    assert((nonce + ct).skip(12) =~= ct);
    vstd::utf8::encode_utf8_valid_utf8(plaintext);
    vstd::utf8::encode_utf8_decode_utf8(plaintext);
}

} // verus!
