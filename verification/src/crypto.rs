//! Authenticated encryption of secret payloads under one 256-bit key.

use aes_gcm::aead::Aead;
use aes_gcm::{Aes256Gcm, KeyInit, Nonce};
use base64::Engine;
use rand::RngCore;
use vstd::prelude::*;

verus! {

/// Length in bytes of the AES-256 key.
pub const KEY_LEN: usize = 32;

/// Length in bytes of the nonce drawn for every encryption.
pub const NONCE_LEN: usize = 12;

/// Length in bytes of the authentication tag that ends every ciphertext.
pub const TAG_LEN: usize = 16;

/// Longest plaintext, in bytes, that AES-GCM seals under one nonce.
pub const MAX_PLAINTEXT_LEN: u64 = 0x10_0000_0000;

/// Why key material was refused at start-up.
#[derive(Clone, Copy, Debug, PartialEq, Eq, Structural)]
pub enum ConfigError {
    /// The key material is not valid base64.
    Encoding,
    /// The decoded key is not exactly `KEY_LEN` bytes long.
    KeyLength,
}

/// Why a payload could not be sealed or opened.
#[derive(Clone, Copy, Debug, PartialEq, Eq, Structural)]
pub enum CryptoError {
    /// The tag did not verify: corrupted data, a wrong nonce or tampering.
    AuthenticationFailed,
    /// The nonce or the plaintext has a length that AES-GCM does not seal.
    EncryptionFailed,
}

/// `base64::DecodeError`, carried through unread.
#[verifier::external_type_specification]
#[verifier::external_body]
pub struct ExDecodeError(base64::DecodeError);

/// `aes_gcm::Error`, carried through unread.
#[verifier::external_type_specification]
#[verifier::external_body]
pub struct ExAeadError(aes_gcm::Error);

/// What the standard base64 engine (standard alphabet, canonical padding
/// required) decodes `text` to, or `None` where it refuses `text`.
pub uninterp spec fn base64_standard_decode(text: Seq<char>) -> Option<Seq<u8>>;

/// The AES-256-GCM ciphertext, tag included, of `plaintext` under `key` and
/// `nonce`, with no associated data.
pub uninterp spec fn aes256gcm_seal(key: Seq<u8>, nonce: Seq<u8>, plaintext: Seq<u8>) -> Seq<u8>;

/// The plaintext that AES-256-GCM recovers from `ciphertext` under `key` and
/// `nonce`, or `None` where the tag does not verify.
pub uninterp spec fn aes256gcm_open(key: Seq<u8>, nonce: Seq<u8>, ciphertext: Seq<u8>) -> Option<
    Seq<u8>,
>;

/// `base64::engine::general_purpose::STANDARD.decode`. Trusted: decoding
/// depends on the text alone, and is named `base64_standard_decode`.
#[verifier::external_body]
fn decode_base64(text: &str) -> (decoded: Result<Vec<u8>, base64::DecodeError>)
    ensures
        decoded is Ok <==> base64_standard_decode(text@) is Some,
        decoded matches Ok(bytes) ==> base64_standard_decode(text@) == Some(bytes@),
{
    base64::engine::general_purpose::STANDARD.decode(text)
}

/// `Aes256Gcm::encrypt` under a context made by `Aes256Gcm::new_from_slice`.
/// Trusted: sealing fails only on a plaintext over the AES-GCM limit; the
/// ciphertext depends on key, nonce and plaintext alone, is one tag longer
/// than the plaintext, and opens to that plaintext under the same key and
/// nonce.
#[verifier::external_body]
fn seal(key: &[u8], nonce: &[u8], plaintext: &[u8]) -> (sealed: Result<Vec<u8>, aes_gcm::Error>)
    requires
        key@.len() == KEY_LEN,
        nonce@.len() == NONCE_LEN,
    ensures
        sealed is Ok <==> plaintext@.len() <= MAX_PLAINTEXT_LEN,
        sealed matches Ok(ciphertext) ==> {
            &&& ciphertext@ == aes256gcm_seal(key@, nonce@, plaintext@)
            &&& ciphertext@.len() == plaintext@.len() + TAG_LEN
            &&& aes256gcm_open(key@, nonce@, ciphertext@) == Some(plaintext@)
        },
{
    match Aes256Gcm::new_from_slice(key) {
        Ok(context) => context.encrypt(Nonce::from_slice(nonce), plaintext),
        Err(_) => Err(aes_gcm::Error),
    }
}

/// `Aes256Gcm::decrypt` under a context made by `Aes256Gcm::new_from_slice`.
/// Trusted: the outcome depends on key, nonce and ciphertext alone, and a
/// recovered plaintext is one tag shorter than the ciphertext.
#[verifier::external_body]
fn open(key: &[u8], nonce: &[u8], ciphertext: &[u8]) -> (opened: Result<Vec<u8>, aes_gcm::Error>)
    requires
        key@.len() == KEY_LEN,
        nonce@.len() == NONCE_LEN,
    ensures
        opened is Ok <==> aes256gcm_open(key@, nonce@, ciphertext@) is Some,
        opened matches Ok(plaintext) ==> {
            &&& aes256gcm_open(key@, nonce@, ciphertext@) == Some(plaintext@)
            &&& plaintext@.len() + TAG_LEN == ciphertext@.len()
        },
{
    match Aes256Gcm::new_from_slice(key) {
        Ok(context) => context.decrypt(Nonce::from_slice(nonce), ciphertext),
        Err(_) => Err(aes_gcm::Error),
    }
}

/// `RngCore::fill_bytes` on `rand::thread_rng()`. Trusted: the buffer comes
/// back with the length asked for; nothing is claimed of its contents.
#[verifier::external_body]
pub(crate) fn random_bytes(len: usize) -> (bytes: Vec<u8>)
    ensures
        bytes@.len() == len,
{
    let mut bytes = vec![0u8; len];
    rand::thread_rng().fill_bytes(&mut bytes);
    bytes
}

/// What sealing `plaintext` under `key` and `nonce` gives.
pub open spec fn seal_spec(key: Seq<u8>, nonce: Seq<u8>, plaintext: Seq<u8>) -> Result<
    Seq<u8>,
    CryptoError,
> {
    if nonce.len() == NONCE_LEN && plaintext.len() <= MAX_PLAINTEXT_LEN {
        Ok(aes256gcm_seal(key, nonce, plaintext))
    } else {
        Err(CryptoError::EncryptionFailed)
    }
}

/// What opening `ciphertext` under `key` and `nonce` gives.
pub open spec fn open_spec(key: Seq<u8>, nonce: Seq<u8>, ciphertext: Seq<u8>) -> Result<
    Seq<u8>,
    CryptoError,
> {
    if nonce.len() == NONCE_LEN {
        match aes256gcm_open(key, nonce, ciphertext) {
            Some(plaintext) => Ok(plaintext),
            None => Err(CryptoError::AuthenticationFailed),
        }
    } else {
        Err(CryptoError::AuthenticationFailed)
    }
}

/// The key that decoded key material stands for.
pub open spec fn key_spec(decoded: Option<Seq<u8>>) -> Result<Seq<u8>, ConfigError> {
    match decoded {
        None => Err(ConfigError::Encoding),
        Some(key) => if key.len() == KEY_LEN {
            Ok(key)
        } else {
            Err(ConfigError::KeyLength)
        },
    }
}

/// The process-wide key context. It is built once and never changes.
pub struct Cipher {
    key: Vec<u8>,
}

impl Cipher {
    #[verifier::type_invariant]
    spec fn key_has_full_length(self) -> bool {
        self.key@.len() == KEY_LEN
    }

    /// The key bytes.
    pub closed spec fn view(&self) -> Seq<u8> {
        self.key@
    }

    /// Takes raw key bytes; accepts exactly `KEY_LEN` of them.
    pub fn new(key: Vec<u8>) -> (built: Result<Cipher, ConfigError>)
        ensures
            key@.len() == KEY_LEN ==> built is Ok && built->Ok_0@ == key@,
            key@.len() != KEY_LEN ==> built == Err::<Cipher, ConfigError>(ConfigError::KeyLength),
    {
        if key.len() == KEY_LEN {
            Ok(Cipher { key })
        } else {
            Err(ConfigError::KeyLength)
        }
    }

    /// Seals `plaintext` under the given nonce. A nonce must never be used
    /// twice under one key; `encrypt` draws a fresh one.
    pub fn encrypt_with_nonce(&self, plaintext: &[u8], nonce: &[u8]) -> (sealed: Result<
        Vec<u8>,
        CryptoError,
    >)
        ensures
            match sealed {
                Ok(ciphertext) => {
                    &&& seal_spec(self@, nonce@, plaintext@) == Ok::<Seq<u8>, CryptoError>(
                        ciphertext@,
                    )
                    &&& ciphertext@.len() == plaintext@.len() + TAG_LEN
                    &&& open_spec(self@, nonce@, ciphertext@) == Ok::<Seq<u8>, CryptoError>(
                        plaintext@,
                    )
                },
                Err(e) => seal_spec(self@, nonce@, plaintext@) == Err::<Seq<u8>, CryptoError>(e),
            },
    {
        proof {
            use_type_invariant(self);
        }
        if nonce.len() != NONCE_LEN {
            return Err(CryptoError::EncryptionFailed);
        }
        match seal(self.key.as_slice(), nonce, plaintext) {
            Ok(ciphertext) => Ok(ciphertext),
            Err(_) => Err(CryptoError::EncryptionFailed),
        }
    }

    /// Seals `plaintext` under a freshly drawn random nonce and returns the
    /// ciphertext with that nonce. What comes back opens to `plaintext`.
    pub fn encrypt(&self, plaintext: &[u8]) -> (sealed: Result<(Vec<u8>, Vec<u8>), CryptoError>)
        ensures
            sealed is Ok <==> plaintext@.len() <= MAX_PLAINTEXT_LEN,
            sealed matches Ok((ciphertext, nonce)) ==> {
                &&& nonce@.len() == NONCE_LEN
                &&& ciphertext@.len() == plaintext@.len() + TAG_LEN
                &&& seal_spec(self@, nonce@, plaintext@) == Ok::<Seq<u8>, CryptoError>(
                    ciphertext@,
                )
                &&& open_spec(self@, nonce@, ciphertext@) == Ok::<Seq<u8>, CryptoError>(
                    plaintext@,
                )
            },
            sealed matches Err(e) ==> e == CryptoError::EncryptionFailed,
    {
        let nonce = random_bytes(NONCE_LEN);
        match self.encrypt_with_nonce(plaintext, nonce.as_slice()) {
            Ok(ciphertext) => Ok((ciphertext, nonce)),
            Err(e) => Err(e),
        }
    }

    /// Opens `ciphertext` under `nonce`. Anything that does not verify,
    /// a nonce of the wrong length or a ciphertext shorter than a tag
    /// included, is an authentication failure.
    pub fn decrypt(&self, ciphertext: &[u8], nonce: &[u8]) -> (opened: Result<Vec<u8>, CryptoError>)
        ensures
            ciphertext@.len() < TAG_LEN || nonce@.len() != NONCE_LEN ==> opened == Err::<
                Vec<u8>,
                CryptoError,
            >(CryptoError::AuthenticationFailed),
            match opened {
                Ok(plaintext) => {
                    &&& open_spec(self@, nonce@, ciphertext@) == Ok::<Seq<u8>, CryptoError>(
                        plaintext@,
                    )
                    &&& plaintext@.len() + TAG_LEN == ciphertext@.len()
                },
                Err(e) => open_spec(self@, nonce@, ciphertext@) == Err::<Seq<u8>, CryptoError>(e),
            },
    {
        proof {
            use_type_invariant(self);
        }
        if nonce.len() != NONCE_LEN {
            return Err(CryptoError::AuthenticationFailed);
        }
        match open(self.key.as_slice(), nonce, ciphertext) {
            Ok(plaintext) => Ok(plaintext),
            Err(_) => Err(CryptoError::AuthenticationFailed),
        }
    }
}

/// Builds the key context from base64 key material.
pub fn build_cipher(key_b64: &str) -> (built: Result<Cipher, ConfigError>)
    ensures
        match built {
            Ok(cipher) => key_spec(base64_standard_decode(key_b64@)) == Ok::<
                Seq<u8>,
                ConfigError,
            >(cipher@),
            Err(e) => key_spec(base64_standard_decode(key_b64@)) == Err::<Seq<u8>, ConfigError>(e),
        },
{
    match decode_base64(key_b64) {
        Ok(key) => Cipher::new(key),
        Err(_) => Err(ConfigError::Encoding),
    }
}

} // verus!
