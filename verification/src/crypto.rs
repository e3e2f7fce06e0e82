//! Field encryption: key contexts, AES-256-GCM sealing of bytes and strings,
//! the hexadecimal text of stored keys, and loading or generating the key.

use aes_gcm::aead::{Aead, KeyInit};
use aes_gcm::{Aes256Gcm, Nonce};
use rand::RngExt;
use std::string::FromUtf8Error;
use vstd::prelude::*;
use vstd::utf8::{
    decode_utf8, encode_utf8, encode_utf8_decode_utf8, encode_utf8_valid_utf8, is_ascii_chars,
    is_ascii_chars_encode_utf8, valid_utf8,
};

use crate::text::{
    char_is_ascii_alpha, char_is_ascii_digit, is_ascii_alnum, owned, push_char, push_str,
    str_to_chars,
};

verus! {

/// Length in bytes of the nonce that prefixes every ciphertext.
pub const NONCE_LEN: usize = 12;

/// Length in bytes of an AES-256 key.
pub const KEY_LEN: usize = 32;

/// The largest plaintext, in bytes, that AES-GCM seals.
pub const P_MAX: u64 = 68719476736;

#[verifier::external_type_specification]
#[verifier::external_body]
pub struct ExFromUtf8Error(FromUtf8Error);

/// Errors produced by key loading and field encryption helpers.
#[derive(Debug)]
pub enum CryptoError {
    InvalidKeyLength,
    Encrypt,
    Decrypt,
    CiphertextTooShort,
    InvalidUtf8(FromUtf8Error),
    InvalidStoredKey,
    SecretNotFound,
    SecretStore(String),
    ProtectedBackup(String),
    ResolverNotFound { model_tag: &'static str, field_tag: &'static str },
}

/// The message each crypto error displays.
pub open spec fn crypto_error_text(e: CryptoError) -> Seq<char> {
    match e {
        CryptoError::InvalidKeyLength => "crypto key must be exactly 32 bytes"@,
        CryptoError::Encrypt => "encryption failed"@,
        CryptoError::Decrypt => "decryption failed"@,
        CryptoError::CiphertextTooShort => "ciphertext is shorter than the required nonce length"@,
        CryptoError::InvalidUtf8(_) => "decrypted data is not valid UTF-8"@,
        CryptoError::InvalidStoredKey => "stored key is not valid hex"@,
        CryptoError::SecretNotFound => "secret store entry not found"@,
        CryptoError::SecretStore(m) => "secret store error: "@ + m@,
        CryptoError::ProtectedBackup(m) => "protected backup store error: "@ + m@,
        CryptoError::ResolverNotFound { model_tag, field_tag } =>
            "no crypto resolver mapping registered for model tag `"@ + model_tag@
            + "` and field tag `"@ + field_tag@ + "`"@,
    }
}

impl CryptoError {
    /// The human-readable message of this error.
    pub fn to_string(&self) -> (out: String)
        ensures
            out@ == crypto_error_text(*self),
    {
        match self {
            CryptoError::InvalidKeyLength => owned("crypto key must be exactly 32 bytes"),
            CryptoError::Encrypt => owned("encryption failed"),
            CryptoError::Decrypt => owned("decryption failed"),
            CryptoError::CiphertextTooShort => owned(
                "ciphertext is shorter than the required nonce length",
            ),
            CryptoError::InvalidUtf8(_) => owned("decrypted data is not valid UTF-8"),
            CryptoError::InvalidStoredKey => owned("stored key is not valid hex"),
            CryptoError::SecretNotFound => owned("secret store entry not found"),
            CryptoError::SecretStore(m) => {
                let mut out = owned("secret store error: ");
                push_str(&mut out, m.as_str());
                out
            },
            CryptoError::ProtectedBackup(m) => {
                let mut out = owned("protected backup store error: ");
                push_str(&mut out, m.as_str());
                out
            },
            CryptoError::ResolverNotFound { model_tag, field_tag } => {
                let mut out = owned("no crypto resolver mapping registered for model tag `");
                push_str(&mut out, model_tag);
                push_str(&mut out, "` and field tag `");
                push_str(&mut out, field_tag);
                push_str(&mut out, "`");
                out
            },
        }
    }
}

/// Stable generated tags used to resolve crypto contexts at runtime.
#[derive(Debug, Clone, Copy, PartialEq, Eq, Hash)]
pub struct CryptoTag {
    pub model: &'static str,
    pub field: &'static str,
}

impl CryptoTag {
    /// Creates a model/field tag pair.
    pub fn new(model: &'static str, field: &'static str) -> (out: Self)
        ensures
            out.model == model,
            out.field == field,
    {
        CryptoTag { model, field }
    }
}

/// Generated metadata for a `Sensitive` plaintext/encrypted pair.
pub trait SensitiveModelTag {
    /// Stable tag identifying this sensitive model.
    fn model_tag() -> &'static str;
}

/// Stable generated metadata for one secure field and its crypto configuration surface.
#[derive(Debug, Clone, Copy)]
pub struct SensitiveFieldMetadata {
    pub model_tag: &'static str,
    pub field_tag: &'static str,
    pub service: Option<&'static str>,
    pub account: Option<&'static str>,
    pub secure_fields: &'static [SensitiveFieldMetadata],
}

/// Generated metadata for a secure field on a `Sensitive` model.
pub trait SensitiveFieldTag {
    /// Stable model tag for the owning sensitive type.
    fn model_tag() -> &'static str;

    /// Stable field tag for the secure field.
    fn field_tag() -> &'static str;

    /// Generated crypto metadata for this secure field: by default empty tags,
    /// no key location, and no secure fields.
    fn crypto_metadata() -> (out: &'static SensitiveFieldMetadata)
        default_ensures
            out.model_tag@ == ""@,
            out.field_tag@ == ""@,
            out.service is None,
            out.account is None,
            out.secure_fields@.len() == 0,
    {
        &SensitiveFieldMetadata {
            model_tag: "",
            field_tag: "",
            service: None,
            account: None,
            secure_fields: &[],
        }
    }
}

/// Source of a symmetric encryption key for [`CryptoContext`].
pub trait KeyProvider {
    /// Loads a raw 32-byte key.
    fn load_key(&self) -> Result<Vec<u8>, CryptoError>;
}

/// In-memory key provider for tests or externally managed keys.
#[derive(Debug, Clone)]
pub struct StaticKeyProvider {
    key: Vec<u8>,
}

impl StaticKeyProvider {
    /// Creates a provider from raw key bytes.
    pub fn new(key: Vec<u8>) -> (out: Self)
        ensures
            out.key_bytes() == key@,
    {
        StaticKeyProvider { key }
    }

    /// The key bytes this provider hands out.
    pub closed spec fn key_bytes(&self) -> Seq<u8> {
        self.key@
    }
}

impl KeyProvider for StaticKeyProvider {
    fn load_key(&self) -> (out: Result<Vec<u8>, CryptoError>)
        ensures
            out matches Ok(k) && k@ == self.key_bytes(),
    {
        Ok(self.key.clone())
    }
}

/// Encryption context holding the symmetric key used by generated `Sensitive` types.
#[derive(Debug, Clone, Copy)]
pub struct CryptoContext {
    key: [u8; 32],
}

impl View for CryptoContext {
    type V = Seq<u8>;

    closed spec fn view(&self) -> Seq<u8> {
        self.key@
    }
}

impl CryptoContext {
    /// Builds a context from raw key bytes, which must be exactly 32 bytes long.
    pub fn new(key: &[u8]) -> (res: Result<Self, CryptoError>)
        ensures
            key@.len() == KEY_LEN <==> res is Ok,
            res matches Ok(c) ==> c@ == key@,
            res matches Err(e) ==> e == CryptoError::InvalidKeyLength,
    {
        if key.len() != KEY_LEN {
            return Err(CryptoError::InvalidKeyLength);
        }
        let mut bytes = [0u8; 32];
        let mut i: usize = 0;
        while i < KEY_LEN
            invariant
                key@.len() == KEY_LEN,
                i <= KEY_LEN,
                bytes@.len() == KEY_LEN,
                forall|j: int| 0 <= j < i ==> bytes@[j] == key@[j],
            decreases KEY_LEN - i,
        {
            bytes[i] = key[i];
            i = i + 1;
        }
        assert(bytes@ =~= key@);
        Ok(CryptoContext { key: bytes })
    }

    /// Builds a context by loading the key from a provider; the loaded key
    /// must be exactly 32 bytes long.
    pub fn from_provider<P: KeyProvider>(provider: &P) -> (res: Result<Self, CryptoError>)
        ensures
            exists|loaded: Result<Vec<u8>, CryptoError>|
                call_ensures(P::load_key, (provider,), loaded) && context_from_loaded(loaded, res),
    {
        let load = P::load_key;
        let loaded = load(provider);
        let ghost answer = loaded;
        let res = match loaded {
            Ok(key) => Self::new(key.as_slice()),
            Err(e) => Err(e),
        };
        assert(context_from_loaded(answer, res));
        res
    }

    /// The raw key bytes.
    pub fn key(&self) -> (out: [u8; 32])
        ensures
            out@ == self@,
    {
        self.key
    }
}

/// A plaintext model with a generated encrypted counterpart.
pub trait Sensitive: Sized {
    /// The stored form whose secure fields are ciphertext.
    type Encrypted;

    /// Encrypts the secure fields under a context.
    fn encrypt(&self, context: &CryptoContext) -> Result<Self::Encrypted, CryptoError>;

    /// Decrypts the secure fields of a stored value under a context.
    fn decrypt(encrypted: &Self::Encrypted, context: &CryptoContext) -> Result<Self, CryptoError>;
}

/// What building a context from a provider's answer gives: a loaded key of
/// 32 bytes becomes the context's key, a key of another length is
/// `InvalidKeyLength`, and a failed load is passed on.
pub open spec fn context_from_loaded(
    loaded: Result<Vec<u8>, CryptoError>,
    res: Result<CryptoContext, CryptoError>,
) -> bool {
    match loaded {
        Ok(k) => if k@.len() == KEY_LEN {
            res matches Ok(c) && c@ == k@
        } else {
            res == Err::<CryptoContext, CryptoError>(CryptoError::InvalidKeyLength)
        },
        Err(e) => res == Err::<CryptoContext, CryptoError>(e),
    }
}

/// Length of a context key.
pub proof fn lemma_context_key_len(c: CryptoContext)
    ensures
        c@.len() == KEY_LEN,
{
}

/// What AES-256-GCM with no associated data produces for a key, nonce and
/// plaintext: the ciphertext followed by the 16-byte tag.
pub uninterp spec fn aes256gcm_seal(key: Seq<u8>, nonce: Seq<u8>, plaintext: Seq<u8>) -> Seq<u8>;

/// What AES-256-GCM with no associated data recovers from a key, nonce and
/// sealed bytes: the plaintext when the tag authenticates, nothing otherwise.
pub uninterp spec fn aes256gcm_open(key: Seq<u8>, nonce: Seq<u8>, sealed: Seq<u8>) -> Option<
    Seq<u8>,
>;

/// Seals a plaintext with AES-256-GCM and no associated data.
///
/// Trusted wrapper around `aes_gcm::Aes256Gcm::encrypt` (the `Aead` trait of
/// `aead` 0.5 over `AeadInPlace::encrypt_in_place_detached` of `aes-gcm` 0.10).
/// It claims that the call fails exactly when the plaintext is longer than
/// `P_MAX` bytes (the only error path in the source), that the output is the
/// named seal of key, nonce and plaintext, 16 bytes longer than the plaintext,
/// and that opening it with the same key and nonce gives the plaintext back,
/// the defining property of an authenticated cipher.
#[verifier::external_body]
fn aes256gcm_encrypt(key: &[u8; 32], nonce: &[u8], plaintext: &[u8]) -> (out: Option<Vec<u8>>)
    requires
        nonce@.len() == NONCE_LEN,
    ensures
        out is Some <==> plaintext@.len() <= P_MAX,
        out matches Some(c) ==> c@ == aes256gcm_seal(key@, nonce@, plaintext@) && c@.len()
            == plaintext@.len() + 16 && aes256gcm_open(key@, nonce@, c@) == Some(plaintext@),
{
    let cipher = Aes256Gcm::new_from_slice(key).ok()?;
    cipher.encrypt(Nonce::from_slice(nonce), plaintext).ok()
}

/// Opens bytes sealed with AES-256-GCM and no associated data.
///
/// Trusted wrapper around `aes_gcm::Aes256Gcm::decrypt`. It claims only that
/// the outcome is the named opening of key, nonce and sealed bytes; which bytes
/// authenticate is left to the cipher.
#[verifier::external_body]
fn aes256gcm_decrypt(key: &[u8; 32], nonce: &[u8], sealed: &[u8]) -> (out: Option<Vec<u8>>)
    requires
        nonce@.len() == NONCE_LEN,
    ensures
        match out {
            Some(p) => aes256gcm_open(key@, nonce@, sealed@) == Some(p@),
            None => aes256gcm_open(key@, nonce@, sealed@) is None,
        },
{
    let cipher = Aes256Gcm::new_from_slice(key).ok()?;
    cipher.decrypt(Nonce::from_slice(nonce), sealed).ok()
}

/// Fresh random bytes.
///
/// Trusted wrapper around `rand::rng().fill` on a buffer of `len` bytes. The
/// bytes come from the thread random number generator, so it claims only that
/// `len` of them come back; `rand::rng` panics only when the operating
/// system's entropy source fails while seeding.
#[verifier::external_body]
fn random_bytes(len: usize) -> (out: Vec<u8>)
    ensures
        out@.len() == len,
{
    let mut bytes = vec![0u8; len];
    rand::rng().fill(&mut bytes[..]);
    bytes
}

/// `sealed` is the output of [`encrypt_bytes`] for `plaintext` under `key`:
/// a nonce, then the AES-GCM sealing of the plaintext under that nonce, which
/// is the ciphertext and its 16-byte tag.
pub open spec fn is_encryption_of(key: Seq<u8>, plaintext: Seq<u8>, sealed: Seq<u8>) -> bool {
    &&& sealed.len() == NONCE_LEN + plaintext.len() + 16
    &&& sealed.skip(NONCE_LEN as int) == aes256gcm_seal(key, sealed.take(NONCE_LEN as int), plaintext)
    &&& aes256gcm_open(key, sealed.take(NONCE_LEN as int), sealed.skip(NONCE_LEN as int)) == Some(
        plaintext,
    )
}

/// The outcome of decrypting bytes under a key.
pub open spec fn decryption_of(key: Seq<u8>, sealed: Seq<u8>) -> Result<Seq<u8>, CryptoError> {
    if sealed.len() < NONCE_LEN {
        Err(CryptoError::CiphertextTooShort)
    } else {
        match aes256gcm_open(key, sealed.take(NONCE_LEN as int), sealed.skip(NONCE_LEN as int)) {
            Some(p) => Ok(p),
            None => Err(CryptoError::Decrypt),
        }
    }
}

/// Encrypts arbitrary bytes and prefixes the output with a random nonce.
pub fn encrypt_bytes(value: &[u8], context: &CryptoContext) -> (res: Result<Vec<u8>, CryptoError>)
    ensures
        res is Ok <==> value@.len() <= P_MAX,
        res matches Ok(c) ==> is_encryption_of(context@, value@, c@),
        res matches Err(e) ==> e == CryptoError::Encrypt,
{
    let nonce = random_bytes(NONCE_LEN);
    match aes256gcm_encrypt(&context.key, nonce.as_slice(), value) {
        Some(ciphertext) => {
            let mut output: Vec<u8> = Vec::new();
            let mut i: usize = 0;
            while i < NONCE_LEN
                invariant
                    i <= NONCE_LEN,
                    nonce@.len() == NONCE_LEN,
                    output@ == nonce@.take(i as int),
                decreases NONCE_LEN - i,
            {
                output.push(nonce[i]);
                i = i + 1;
                assert(output@ =~= nonce@.take(i as int));
            }
            let n = ciphertext.len();
            let mut j: usize = 0;
            while j < n
                invariant
                    n == ciphertext@.len(),
                    j <= n,
                    nonce@.len() == NONCE_LEN,
                    output@ == nonce@ + ciphertext@.take(j as int),
                decreases n - j,
            {
                output.push(ciphertext[j]);
                j = j + 1;
                assert(output@ =~= nonce@ + ciphertext@.take(j as int));
            }
            assert(output@.take(NONCE_LEN as int) =~= nonce@);
            assert(output@.skip(NONCE_LEN as int) =~= ciphertext@);
            assert(output@.len() == NONCE_LEN + value@.len() + 16);
            Ok(output)
        },
        None => Err(CryptoError::Encrypt),
    }
}

/// Decrypts bytes produced by [`encrypt_bytes`].
pub fn decrypt_bytes(value: &[u8], context: &CryptoContext) -> (res: Result<Vec<u8>, CryptoError>)
    ensures
        match decryption_of(context@, value@) {
            Ok(p) => res matches Ok(r) && r@ == p,
            Err(e) => res matches Err(f) && f == e,
        },
{
    if value.len() < NONCE_LEN {
        return Err(CryptoError::CiphertextTooShort);
    }
    let mut nonce: Vec<u8> = Vec::new();
    let mut body: Vec<u8> = Vec::new();
    let n = value.len();
    let mut i: usize = 0;
    while i < n
        invariant
            n == value@.len(),
            NONCE_LEN <= n,
            i <= n,
            i <= NONCE_LEN ==> nonce@ == value@.take(i as int) && body@.len() == 0,
            i > NONCE_LEN ==> nonce@ == value@.take(NONCE_LEN as int) && body@ == value@.subrange(
                NONCE_LEN as int,
                i as int,
            ),
        decreases n - i,
    {
        if i < NONCE_LEN {
            nonce.push(value[i]);
        } else {
            body.push(value[i]);
        }
        i = i + 1;
        assert(i <= NONCE_LEN ==> nonce@ =~= value@.take(i as int));
        assert(i > NONCE_LEN ==> body@ =~= value@.subrange(NONCE_LEN as int, i as int));
    }
    assert(body@ =~= value@.skip(NONCE_LEN as int));
    match aes256gcm_decrypt(&context.key, nonce.as_slice(), body.as_slice()) {
        Some(p) => Ok(p),
        None => Err(CryptoError::Decrypt),
    }
}

/// Decodes UTF-8 bytes into a string.
///
/// Trusted wrapper around `String::from_utf8`, whose documentation says it
/// fails exactly when the bytes are not valid UTF-8; the string then holds the
/// characters the bytes encode.
#[verifier::external_body]
fn string_from_utf8(bytes: Vec<u8>) -> (out: Result<String, FromUtf8Error>)
    ensures
        out is Ok <==> valid_utf8(bytes@),
        out matches Ok(s) ==> s@ == decode_utf8(bytes@),
{
    String::from_utf8(bytes)
}

/// Encrypts a UTF-8 string into nonce-prefixed ciphertext bytes.
pub fn encrypt_string(value: &str, context: &CryptoContext) -> (res: Result<Vec<u8>, CryptoError>)
    ensures
        res is Ok <==> encode_utf8(value@).len() <= P_MAX,
        res matches Ok(c) ==> is_encryption_of(context@, encode_utf8(value@), c@),
        res matches Err(e) ==> e == CryptoError::Encrypt,
{
    encrypt_bytes(value.as_bytes(), context)
}

/// Decrypts bytes from [`encrypt_string`] back into a UTF-8 string.
pub fn decrypt_string(value: &[u8], context: &CryptoContext) -> (res: Result<String, CryptoError>)
    ensures
        match decryption_of(context@, value@) {
            Ok(p) => if valid_utf8(p) {
                res matches Ok(s) && s@ == decode_utf8(p)
            } else {
                res matches Err(CryptoError::InvalidUtf8(_))
            },
            Err(e) => res matches Err(f) && f == e,
        },
{
    let bytes = decrypt_bytes(value, context)?;
    match string_from_utf8(bytes) {
        Ok(s) => Ok(s),
        Err(e) => Err(CryptoError::InvalidUtf8(e)),
    }
}

/// Decryption inverts encryption: bytes that [`encrypt_bytes`] produced for a
/// plaintext under a key decrypt to that plaintext under the same key.
pub proof fn lemma_decrypt_inverts_encrypt(key: Seq<u8>, plaintext: Seq<u8>, sealed: Seq<u8>)
    requires
        is_encryption_of(key, plaintext, sealed),
    ensures
        decryption_of(key, sealed) == Ok::<Seq<u8>, CryptoError>(plaintext),
{
}

/// A string encrypted with [`encrypt_string`] decrypts with [`decrypt_string`]
/// under the same key to the same string.
pub proof fn lemma_string_roundtrip(key: Seq<u8>, value: Seq<char>, sealed: Seq<u8>)
    requires
        is_encryption_of(key, encode_utf8(value), sealed),
    ensures
        decryption_of(key, sealed) == Ok::<Seq<u8>, CryptoError>(encode_utf8(value)),
        valid_utf8(encode_utf8(value)),
        decode_utf8(encode_utf8(value)) == value,
{
    encode_utf8_valid_utf8(value);
    encode_utf8_decode_utf8(value);
}

/// Encrypts an optional string while preserving `None`.
pub fn encrypt_optional_string(value: &Option<String>, context: &CryptoContext) -> (res: Result<
    Option<Vec<u8>>,
    CryptoError,
>)
    ensures
        value is None ==> res matches Ok(None),
        value matches Some(v) ==> (res is Ok <==> encode_utf8(v@).len() <= P_MAX),
        value matches Some(v) ==> (res matches Ok(Some(c)) ==> is_encryption_of(
            context@,
            encode_utf8(v@),
            c@,
        )),
        res matches Ok(o) ==> (o is Some <==> value is Some),
        res matches Err(e) ==> e == CryptoError::Encrypt,
{
    match value {
        Some(v) => {
            let c = encrypt_string(v.as_str(), context)?;
            Ok(Some(c))
        },
        None => Ok(None),
    }
}

/// Decrypts an optional encrypted string while preserving `None`.
pub fn decrypt_optional_string(value: &Option<Vec<u8>>, context: &CryptoContext) -> (res: Result<
    Option<String>,
    CryptoError,
>)
    ensures
        value is None ==> res matches Ok(None),
        value matches Some(c) ==> match decryption_of(context@, c@) {
            Ok(p) => if valid_utf8(p) {
                res matches Ok(Some(s)) && s@ == decode_utf8(p)
            } else {
                res matches Err(CryptoError::InvalidUtf8(_))
            },
            Err(e) => res matches Err(f) && f == e,
        },
{
    match value {
        Some(c) => {
            let s = decrypt_string(c.as_slice(), context)?;
            Ok(Some(s))
        },
        None => Ok(None),
    }
}

/// The lowercase hexadecimal digit of a nibble (a value below 16).
pub open spec fn hex_digit(n: int) -> char {
    if n < 10 {
        (48 + n) as char
    } else {
        (87 + n) as char
    }
}

/// Lowercase hexadecimal text of bytes: two digits per byte, high nibble first.
pub open spec fn hex_encoding(bytes: Seq<u8>) -> Seq<char> {
    Seq::new(
        2 * bytes.len(),
        |i: int|
            if i % 2 == 0 {
                hex_digit(bytes[i / 2] as int / 16)
            } else {
                hex_digit(bytes[i / 2] as int % 16)
            },
    )
}

/// A byte is an ASCII hexadecimal digit, in either case.
pub open spec fn is_hex_byte(b: u8) -> bool {
    (48 <= b <= 57) || (97 <= b <= 102) || (65 <= b <= 70)
}

/// The value of an ASCII hexadecimal digit.
pub open spec fn hex_value(b: u8) -> int {
    if b <= 57 {
        b - 48
    } else if b >= 97 {
        b - 87
    } else {
        b - 55
    }
}

/// The key that stored hexadecimal text denotes: exactly 64 hexadecimal digit
/// bytes, read two at a time, high nibble first; anything else denotes none.
pub open spec fn hex_key_decoding(text: Seq<u8>) -> Option<Seq<u8>> {
    if text.len() == 2 * KEY_LEN && forall|i: int| 0 <= i < text.len() ==> is_hex_byte(#[trigger] text[i]) {
        Some(
            Seq::new(
                KEY_LEN as nat,
                |i: int| (hex_value(text[2 * i]) * 16 + hex_value(text[2 * i + 1])) as u8,
            ),
        )
    } else {
        None
    }
}

fn hex_digit_char(n: u8) -> (c: char)
    requires
        n < 16,
    ensures
        c == hex_digit(n as int),
{
    if n < 10 {
        ((n + 48) as u8) as char
    } else {
        ((n + 87) as u8) as char
    }
}

/// Encodes bytes as lowercase hexadecimal text.
pub fn encode_hex(bytes: &[u8]) -> (out: String)
    ensures
        out@ == hex_encoding(bytes@),
{
    let mut out = String::new();
    let n = bytes.len();
    let mut i: usize = 0;
    while i < n
        invariant
            n == bytes@.len(),
            i <= n,
            out@.len() == 2 * i,
            forall|j: int| 0 <= j < 2 * i ==> #[trigger] out@[j] == hex_encoding(bytes@)[j],
        decreases n - i,
    {
        let b = bytes[i];
        let hi = hex_digit_char(b / 16);
        let lo = hex_digit_char(b % 16);
        proof {
            assert((2 * i as int) / 2 == i as int);
            assert((2 * i as int + 1) / 2 == i as int);
            assert((2 * i as int) % 2 == 0);
            assert((2 * i as int + 1) % 2 == 1);
        }
        push_char(&mut out, hi);
        push_char(&mut out, lo);
        i = i + 1;
    }
    assert(out@ =~= hex_encoding(bytes@));
    out
}

fn decode_hex_nibble(byte: u8) -> (res: Result<u8, CryptoError>)
    ensures
        is_hex_byte(byte) <==> res is Ok,
        res matches Ok(v) ==> v == hex_value(byte) && v < 16,
        res matches Err(e) ==> e == CryptoError::InvalidStoredKey,
{
    if 48 <= byte && byte <= 57 {
        Ok(byte - 48)
    } else if 97 <= byte && byte <= 102 {
        Ok(byte - 87)
    } else if 65 <= byte && byte <= 70 {
        Ok(byte - 55)
    } else {
        Err(CryptoError::InvalidStoredKey)
    }
}

/// Decodes a stored key: 64 hexadecimal digits into 32 bytes.
pub fn decode_hex(value: &str) -> (res: Result<Vec<u8>, CryptoError>)
    ensures
        match hex_key_decoding(encode_utf8(value@)) {
            Some(k) => res matches Ok(v) && v@ == k,
            None => res matches Err(e) && e == CryptoError::InvalidStoredKey,
        },
{
    let text = value.as_bytes();
    if text.len() != 2 * KEY_LEN {
        return Err(CryptoError::InvalidStoredKey);
    }
    let mut out: Vec<u8> = Vec::new();
    let mut i: usize = 0;
    while i < KEY_LEN
        invariant
            text@ == encode_utf8(value@),
            text@.len() == 2 * KEY_LEN,
            i <= KEY_LEN,
            out@.len() == i,
            forall|j: int| 0 <= j < 2 * i ==> is_hex_byte(#[trigger] text@[j]),
            forall|j: int|
                0 <= j < i ==> #[trigger] out@[j] == (hex_value(text@[2 * j]) * 16 + hex_value(
                    text@[2 * j + 1],
                )) as u8,
        decreases KEY_LEN - i,
    {
        let hi = match decode_hex_nibble(text[2 * i]) {
            Ok(v) => v,
            Err(e) => {
                assert(!is_hex_byte(text@[2 * i as int]));
                return Err(e);
            },
        };
        let lo = match decode_hex_nibble(text[2 * i + 1]) {
            Ok(v) => v,
            Err(e) => {
                assert(!is_hex_byte(text@[2 * i as int + 1]));
                return Err(e);
            },
        };
        out.push(hi * 16 + lo);
        i = i + 1;
    }
    proof {
        assert forall|j: int| 0 <= j < text@.len() implies is_hex_byte(#[trigger] text@[j]) by {}
        let k = hex_key_decoding(text@);
        assert(k is Some);
        assert(out@ =~= k->0);
    }
    Ok(out)
}

/// Stored keys round-trip: the hexadecimal text that [`encode_hex`] writes
/// for a 32-byte key is what [`decode_hex`] reads back as that key.
pub proof fn lemma_hex_key_roundtrip(key: Seq<u8>)
    requires
        key.len() == KEY_LEN,
    ensures
        hex_key_decoding(encode_utf8(hex_encoding(key))) == Some(key),
{
    let chars = hex_encoding(key);
    assert forall|i: int| 0 <= i < chars.len() implies '\0' <= #[trigger] chars[i] <= '\u{7f}' by {
        assert(key[i / 2] as int / 16 < 16);
    }
    assert(is_ascii_chars(chars));
    is_ascii_chars_encode_utf8(chars);
    let text = encode_utf8(chars);
    assert forall|i: int| 0 <= i < text.len() implies is_hex_byte(#[trigger] text[i]) && hex_value(
        text[i],
    ) == (if i % 2 == 0 {
        key[i / 2] as int / 16
    } else {
        key[i / 2] as int % 16
    }) by {
        assert(chars[i] as u8 == text[i]);
    }
    let decoded = Seq::new(
        KEY_LEN as nat,
        |i: int| (hex_value(text[2 * i]) * 16 + hex_value(text[2 * i + 1])) as u8,
    );
    assert forall|i: int| 0 <= i < KEY_LEN implies decoded[i] == key[i] by {
        assert((2 * i) / 2 == i);
        assert((2 * i + 1) / 2 == i);
        assert((2 * i) % 2 == 0);
        assert((2 * i + 1) % 2 == 1);
        assert(hex_value(text[2 * i]) == key[i] as int / 16);
        assert(hex_value(text[2 * i + 1]) == key[i] as int % 16);
    }
    assert(decoded =~= key);
}

/// Secret storage for the hexadecimal text of the key (the OS keyring).
pub trait SecretStore {
    /// Reads the stored secret; `SecretNotFound` when there is none.
    fn read_secret(&self) -> Result<String, CryptoError>;

    /// Replaces the stored secret.
    fn write_secret(&self, value: &str) -> Result<(), CryptoError>;
}

/// Protected local backup of the raw key bytes.
pub trait KeyBackupStore {
    /// Reads the backed-up key; `SecretNotFound` when there is none.
    fn read_key(&self) -> Result<Vec<u8>, CryptoError>;

    /// Replaces the backed-up key.
    fn write_key(&self, value: &[u8]) -> Result<(), CryptoError>;
}

/// What an answer of a key store decides: a usable key, no key stored, or a
/// failure to report.
pub enum StoredKey {
    /// A 32-byte key.
    Key(Vec<u8>),
    /// The store holds no key.
    Missing,
    /// The store's answer is an error to pass on.
    Failed(CryptoError),
}

/// What the secret store's answer decides: stored text is the key when it is
/// 64 hexadecimal digits and `InvalidStoredKey` otherwise; a missing entry
/// sends the search on; any other failure is passed on.
pub fn on_secret_read(read: Result<String, CryptoError>) -> (out: StoredKey)
    ensures
        read matches Ok(v) ==> match hex_key_decoding(encode_utf8(v@)) {
            Some(k) => (out matches StoredKey::Key(key) && key@ == k),
            None => (out matches StoredKey::Failed(e) && e == CryptoError::InvalidStoredKey),
        },
        read matches Err(e) ==> (if e == CryptoError::SecretNotFound {
            out is Missing
        } else {
            out matches StoredKey::Failed(f) && f == e
        }),
{
    match read {
        Ok(value) => match decode_hex(value.as_str()) {
            Ok(key) => StoredKey::Key(key),
            Err(e) => StoredKey::Failed(e),
        },
        Err(CryptoError::SecretNotFound) => StoredKey::Missing,
        Err(e) => StoredKey::Failed(e),
    }
}

/// What the backup store's answer decides: a key of 32 bytes is used, one of
/// another length is `InvalidKeyLength`; a missing backup sends the search
/// on; any other failure is passed on.
pub fn on_backup_read(read: Result<Vec<u8>, CryptoError>) -> (out: StoredKey)
    ensures
        read matches Ok(k) ==> (if k@.len() == KEY_LEN {
            out matches StoredKey::Key(key) && key@ == k@
        } else {
            out matches StoredKey::Failed(e) && e == CryptoError::InvalidKeyLength
        }),
        read matches Err(e) ==> (if e == CryptoError::SecretNotFound {
            out is Missing
        } else {
            out matches StoredKey::Failed(f) && f == e
        }),
{
    match read {
        Ok(key) => {
            if key.len() != KEY_LEN {
                StoredKey::Failed(CryptoError::InvalidKeyLength)
            } else {
                StoredKey::Key(key)
            }
        },
        Err(CryptoError::SecretNotFound) => StoredKey::Missing,
        Err(e) => StoredKey::Failed(e),
    }
}

/// Copies a key into the backup store, if there is one; a failing backup
/// write is ignored.
pub fn mirror_key_to_backup<B: KeyBackupStore>(key: &[u8], backup: Option<&B>) {
    if let Some(backup) = backup {
        let _ = backup.write_key(key);
    }
}

/// The outcome of writing a key's hexadecimal text to the secret store: the
/// key when the write succeeds, the store's error when it fails.
pub open spec fn written_key<S: SecretStore>(
    store: &S,
    key: Seq<u8>,
    res: Result<Vec<u8>, CryptoError>,
) -> bool {
    exists|text: &str, written: Result<(), CryptoError>|
        text@ == hex_encoding(key) && call_ensures(S::write_secret, (store, text), written) && match written {
            Ok(()) => res matches Ok(k) && k@ == key,
            Err(e) => res == Err::<Vec<u8>, CryptoError>(e),
        }
}

/// The outcome of generating a fresh 32-byte key and writing it to the store.
pub open spec fn generated_key<S: SecretStore>(store: &S, res: Result<Vec<u8>, CryptoError>) -> bool {
    exists|key: Seq<u8>| key.len() == KEY_LEN && written_key(store, key, res)
}

/// The outcome when the secret store holds no key: the backup's key of 32
/// bytes is written back to the store, a backup key of another length is
/// `InvalidKeyLength`, a backup failure is passed on, and without a backup
/// key a fresh key is generated.
pub open spec fn restored_or_generated<S: SecretStore, B: KeyBackupStore>(
    store: &S,
    backup: Option<&B>,
    res: Result<Vec<u8>, CryptoError>,
) -> bool {
    match backup {
        Some(b) => exists|read: Result<Vec<u8>, CryptoError>|
            call_ensures(B::read_key, (b,), read) && match read {
                Ok(k) => if k@.len() == KEY_LEN {
                    written_key(store, k@, res)
                } else {
                    res == Err::<Vec<u8>, CryptoError>(CryptoError::InvalidKeyLength)
                },
                Err(e) => if e == CryptoError::SecretNotFound {
                    generated_key(store, res)
                } else {
                    res == Err::<Vec<u8>, CryptoError>(e)
                },
            },
        None => generated_key(store, res),
    }
}

/// The outcome of loading the key given the secret store's answer: stored
/// text of 64 hexadecimal digits is the key, other stored text is
/// `InvalidStoredKey`, a missing entry falls back to the backup or a fresh
/// key, and any other failure is passed on.
pub open spec fn loaded_key<S: SecretStore, B: KeyBackupStore>(
    store: &S,
    backup: Option<&B>,
    read: Result<String, CryptoError>,
    res: Result<Vec<u8>, CryptoError>,
) -> bool {
    match read {
        Ok(t) => match hex_key_decoding(encode_utf8(t@)) {
            Some(k) => res matches Ok(key) && key@ == k,
            None => res == Err::<Vec<u8>, CryptoError>(CryptoError::InvalidStoredKey),
        },
        Err(e) => if e == CryptoError::SecretNotFound {
            restored_or_generated(store, backup, res)
        } else {
            res == Err::<Vec<u8>, CryptoError>(e)
        },
    }
}

fn write_key_text<S: SecretStore>(store: &S, key: Vec<u8>) -> (res: Result<Vec<u8>, CryptoError>)
    ensures
        written_key(store, key@, res),
{
    let encoded = encode_hex(key.as_slice());
    let text = encoded.as_str();
    let write = S::write_secret;
    let written = write(store, text);
    let ghost answer = written;
    let ghost key_bytes = key@;
    let res = match written {
        Ok(()) => Ok(key),
        Err(e) => Err(e),
    };
    assert(text@ == hex_encoding(key_bytes));
    assert(call_ensures(S::write_secret, (store, text), answer));
    res
}

fn generate_key<S: SecretStore, B: KeyBackupStore>(store: &S, backup: Option<&B>) -> (res: Result<
    Vec<u8>,
    CryptoError,
>)
    ensures
        generated_key(store, res),
{
    let key = random_bytes(KEY_LEN);
    let ghost fresh = key@;
    let res = write_key_text(store, key);
    if let Ok(k) = &res {
        mirror_key_to_backup(k.as_slice(), backup);
    }
    assert(fresh.len() == KEY_LEN && written_key(store, fresh, res));
    res
}

/// A key that loading wrote to the secret store is what the next load
/// returns when the store gives back the text written to it: that text is the
/// key's 64 hexadecimal digits, and they decode to the key.
pub proof fn lemma_written_key_reloads<S: SecretStore, B: KeyBackupStore>(
    store: &S,
    backup: Option<&B>,
    key: Seq<u8>,
    read: Result<String, CryptoError>,
    res: Result<Vec<u8>, CryptoError>,
)
    requires
        key.len() == KEY_LEN,
        read matches Ok(t) && t@ == hex_encoding(key),
        loaded_key(store, backup, read, res),
    ensures
        res matches Ok(k) && k@ == key,
{
    lemma_hex_key_roundtrip(key);
}

/// Loads the key: from the secret store when it holds one (mirrored into the
/// backup), else restored from the backup (and written back to the store),
/// else freshly generated (and written to both). A stored secret that is not
/// 64 hexadecimal digits is `InvalidStoredKey`, a backup key of another length
/// is `InvalidKeyLength`, and any failure of a store read or of writing the
/// key back is passed on; a key that comes back is 32 bytes long.
pub fn load_or_generate_key<S: SecretStore, B: KeyBackupStore>(store: &S, backup: Option<&B>) -> (res:
    Result<Vec<u8>, CryptoError>)
    ensures
        exists|read: Result<String, CryptoError>|
            call_ensures(S::read_secret, (store,), read) && loaded_key(store, backup, read, res),
        res matches Ok(k) ==> k@.len() == KEY_LEN,
{
    let read_secret = S::read_secret;
    let secret = read_secret(store);
    let ghost secret_answer = secret;
    let res = match on_secret_read(secret) {
        StoredKey::Key(key) => {
            mirror_key_to_backup(key.as_slice(), backup);
            Ok(key)
        },
        StoredKey::Failed(e) => Err(e),
        StoredKey::Missing => {
            match backup {
                Some(b) => {
                    let read_key = B::read_key;
                    let stored = read_key(b);
                    let ghost backup_answer = stored;
                    let res = match on_backup_read(stored) {
                        StoredKey::Key(key) => write_key_text(store, key),
                        StoredKey::Missing => generate_key(store, backup),
                        StoredKey::Failed(e) => Err(e),
                    };
                    assert(call_ensures(B::read_key, (b,), backup_answer));
                    assert(restored_or_generated(store, backup, res));
                    res
                },
                None => generate_key(store, backup),
            }
        },
    };
    assert(call_ensures(S::read_secret, (store,), secret_answer));
    assert(loaded_key(store, backup, secret_answer, res));
    res
}

/// The error a secret-store failure maps to: a missing entry is
/// `SecretNotFound`, anything else `SecretStore` with the store's message.
pub fn secret_store_failure(missing_entry: bool, message: String) -> (e: CryptoError)
    ensures
        missing_entry ==> e == CryptoError::SecretNotFound,
        !missing_entry ==> e == CryptoError::SecretStore(message),
{
    if missing_entry {
        CryptoError::SecretNotFound
    } else {
        CryptoError::SecretStore(message)
    }
}

/// A character kept as it is in a path component.
pub open spec fn is_path_safe(c: char) -> bool {
    is_ascii_alnum(c) || c == '-' || c == '_'
}

/// A service or account name made safe as one path component: every
/// character but ASCII letters, digits, `-` and `_` becomes `_`.
pub open spec fn sanitized_component(value: Seq<char>) -> Seq<char> {
    value.map_values(|c: char| if is_path_safe(c) { c } else { '_' })
}

/// Makes a service or account name safe as one path component.
pub fn sanitize_path_component(value: &str) -> (out: String)
    ensures
        out@ == sanitized_component(value@),
{
    let chars = str_to_chars(value);
    let mut out = String::new();
    let n = chars.len();
    let mut i: usize = 0;
    while i < n
        invariant
            n == chars@.len(),
            chars@ == value@,
            i <= n,
            out@ == sanitized_component(value@.take(i as int)),
        decreases n - i,
    {
        let c = chars[i];
        let keep = char_is_ascii_alpha(c) || char_is_ascii_digit(c) || c == '-' || c == '_';
        if keep {
            push_char(&mut out, c);
        } else {
            push_char(&mut out, '_');
        }
        i = i + 1;
        assert(value@.take(i as int) =~= value@.take(i - 1).push(c));
        assert(sanitized_component(value@.take(i as int)) =~= sanitized_component(
            value@.take(i - 1),
        ).push(if is_path_safe(c) { c } else { '_' }));
    }
    assert(value@.take(n as int) =~= value@);
    out
}

} // verus!
