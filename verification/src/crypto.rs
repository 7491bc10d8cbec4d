//! Authenticated encryption and credential decoding.
//!
//! AES-256-GCM does the cryptography; its calls stand behind trusted
//! wrappers whose contracts name the cipher's input-output relation.  The
//! decoding of base64 credentials into fixed-length key and nonce buffers is
//! verified against the decoder's named result.

use vstd::prelude::*;
use vstd::string::StringSliceAdditionalSpecFns;

use aes_gcm::aead::Aead;
use aes_gcm::aead::KeyInit;
use base64::Engine;

use crate::errors::Base64Issue;
use crate::errors::TokenProviderError;

verus! {

/// AES-GCM key size in bytes (256 bits).
pub const KEY_SIZE: usize = 32;

/// AES-GCM nonce/IV size in bytes (96 bits).
pub const NONCE_SIZE: usize = 12;

/// AES-GCM authentication tag size in bytes.
pub const TAG_SIZE: usize = 16;

/// The cipher refuses plaintexts longer than this (2^36 bytes).
pub const AEAD_PLAINTEXT_LIMIT: u64 = 0x10_0000_0000;

/// What standard base64 decoding yields for the bytes of a text: the decoded
/// bytes, or nothing when the text is not valid base64.
pub uninterp spec fn base64_decoding(text: Seq<u8>) -> Option<Seq<u8>>;

/// Relies on base64's `Engine::decode` with the standard alphabet: the
/// result depends on the input text alone.  A failure is carried over into
/// the library's mirror of the crate's decode faults, field by field.
#[verifier::external_body]
fn base64_decode(text: &str) -> (r: Result<Vec<u8>, Base64Issue>)
    ensures
        r matches Ok(v) ==> base64_decoding(text.spec_bytes()) == Some(v@),
        r is Err ==> base64_decoding(text.spec_bytes()) is None,
{
    match base64::engine::general_purpose::STANDARD.decode(text) {
        Ok(v) => Ok(v),
        Err(base64::DecodeError::InvalidByte(i, b)) => Err(Base64Issue::InvalidByte(i, b)),
        Err(base64::DecodeError::InvalidLength(l)) => Err(Base64Issue::InvalidLength(l)),
        Err(base64::DecodeError::InvalidLastSymbol(i, b)) => Err(
            Base64Issue::InvalidLastSymbol(i, b),
        ),
        Err(base64::DecodeError::InvalidPadding) => Err(Base64Issue::InvalidPadding),
    }
}

/// What AES-256-GCM encryption yields: the ciphertext with the 16-byte
/// authentication tag appended.  Deterministic in plaintext, key, and nonce.
pub uninterp spec fn aead_cipher(plain: Seq<u8>, key: Seq<u8>, nonce: Seq<u8>) -> Seq<u8>;

/// What AES-256-GCM decryption yields: the plaintext, or nothing when the
/// authentication tag does not verify.  Deterministic in its inputs.
pub uninterp spec fn aead_plain(cipher: Seq<u8>, key: Seq<u8>, nonce: Seq<u8>) -> Option<Seq<u8>>;

/// Relies on aes_gcm's `Aes256Gcm::encrypt`: the result is the plaintext's
/// encryption with the 16-byte tag appended, decrypting it with the same key
/// and nonce gives the plaintext back, and the call fails exactly for
/// plaintexts beyond the cipher's 2^36-byte bound.
#[verifier::external_body]
fn aes_gcm_seal(data: &[u8], key: &[u8; KEY_SIZE], nonce: &[u8; NONCE_SIZE]) -> (r: Option<
    Vec<u8>,
>)
    ensures
        r matches Some(c) ==> c@ == aead_cipher(data@, key@, nonce@) && c@.len() == data@.len()
            + TAG_SIZE,
        r matches Some(c) ==> aead_plain(c@, key@, nonce@) == Some(data@),
        r is Some <==> data@.len() <= AEAD_PLAINTEXT_LIMIT,
{
    let cipher = aes_gcm::Aes256Gcm::new(aes_gcm::Key::<aes_gcm::Aes256Gcm>::from_slice(key));
    cipher.encrypt(aes_gcm::Nonce::from_slice(nonce), data).ok()
}

/// Relies on aes_gcm's `Aes256Gcm::decrypt`: it returns the plaintext
/// exactly when the authentication tag verifies, refuses anything shorter
/// than the 16-byte tag, and its result depends on ciphertext, key, and
/// nonce alone.
#[verifier::external_body]
fn aes_gcm_open(ciphertext: &[u8], key: &[u8; KEY_SIZE], nonce: &[u8; NONCE_SIZE]) -> (r: Option<
    Vec<u8>,
>)
    ensures
        r matches Some(p) ==> aead_plain(ciphertext@, key@, nonce@) == Some(p@),
        r is None ==> aead_plain(ciphertext@, key@, nonce@) is None,
        ciphertext@.len() < TAG_SIZE ==> r is None,
{
    let cipher = aes_gcm::Aes256Gcm::new(aes_gcm::Key::<aes_gcm::Aes256Gcm>::from_slice(key));
    cipher.decrypt(aes_gcm::Nonce::from_slice(nonce), ciphertext).ok()
}

/// Decodes base64 key text and requires exactly 32 decoded bytes, reporting
/// the actual count on a mismatch.
#[verifier::loop_isolation(false)]
pub fn decode_and_validate_key(base64_key: &str) -> (r: Result<[u8; KEY_SIZE], TokenProviderError>)
    ensures
        match base64_decoding(base64_key.spec_bytes()) {
            Some(bytes) => if bytes.len() == KEY_SIZE {
                r matches Ok(k) && k@ == bytes
            } else {
                r == Err::<[u8; KEY_SIZE], TokenProviderError>(
                    TokenProviderError::InvalidKeyLength { actual: bytes.len() as usize },
                )
            },
            None => r matches Err(e) && e is InvalidBase64,
        },
{
    let decoded = match base64_decode(base64_key) {
        Ok(v) => v,
        Err(issue) => {
            return Err(TokenProviderError::InvalidBase64(issue));
        },
    };
    if decoded.len() != KEY_SIZE {
        return Err(TokenProviderError::InvalidKeyLength { actual: decoded.len() });
    }
    let mut key = [0u8; KEY_SIZE];
    let mut i: usize = 0;
    while i < KEY_SIZE
        invariant
            i <= KEY_SIZE,
            forall|j: int| 0 <= j < i ==> key@[j] == decoded@[j],
        decreases KEY_SIZE - i,
    {
        key[i] = decoded[i];
        i = i + 1;
    }
    proof {
        assert(key@ =~= base64_decoding(base64_key.spec_bytes()).unwrap());
    }
    Ok(key)
}

/// Decodes base64 nonce text and requires exactly 12 decoded bytes,
/// reporting the actual count on a mismatch.
#[verifier::loop_isolation(false)]
pub fn decode_and_validate_nonce(base64_nonce: &str) -> (r: Result<
    [u8; NONCE_SIZE],
    TokenProviderError,
>)
    ensures
        match base64_decoding(base64_nonce.spec_bytes()) {
            Some(bytes) => if bytes.len() == NONCE_SIZE {
                r matches Ok(k) && k@ == bytes
            } else {
                r == Err::<[u8; NONCE_SIZE], TokenProviderError>(
                    TokenProviderError::InvalidIvLength { actual: bytes.len() as usize },
                )
            },
            None => r matches Err(e) && e is InvalidBase64,
        },
{
    let decoded = match base64_decode(base64_nonce) {
        Ok(v) => v,
        Err(issue) => {
            return Err(TokenProviderError::InvalidBase64(issue));
        },
    };
    if decoded.len() != NONCE_SIZE {
        return Err(TokenProviderError::InvalidIvLength { actual: decoded.len() });
    }
    let mut nonce = [0u8; NONCE_SIZE];
    let mut i: usize = 0;
    while i < NONCE_SIZE
        invariant
            i <= NONCE_SIZE,
            forall|j: int| 0 <= j < i ==> nonce@[j] == decoded@[j],
        decreases NONCE_SIZE - i,
    {
        nonce[i] = decoded[i];
        i = i + 1;
    }
    proof {
        assert(nonce@ =~= base64_decoding(base64_nonce.spec_bytes()).unwrap());
    }
    Ok(nonce)
}

/// Encrypts with AES-256-GCM; the ciphertext is 16 bytes longer than the
/// plaintext and is exactly the cipher's output for these inputs.
pub fn encrypt_data(data: &[u8], key: &[u8; KEY_SIZE], nonce: &[u8; NONCE_SIZE]) -> (r: Result<
    Vec<u8>,
    TokenProviderError,
>)
    ensures
        r matches Ok(c) ==> c@ == aead_cipher(data@, key@, nonce@) && c@.len() == data@.len() + TAG_SIZE,
        r matches Ok(c) ==> aead_plain(c@, key@, nonce@) == Some(data@),
        r is Ok <==> data@.len() <= AEAD_PLAINTEXT_LIMIT,
        r matches Err(e) ==> e is CryptoError,
{
    match aes_gcm_seal(data, key, nonce) {
        Some(c) => Ok(c),
        None => Err(TokenProviderError::CryptoError("encryption failed".to_owned())),
    }
}

/// Decrypts with AES-256-GCM, verifying the authentication tag.  It
/// succeeds exactly when the tag verifies; in particular a ciphertext
/// produced by `encrypt_data` under the same key and nonce yields exactly
/// the original plaintext, and a truncated ciphertext is always refused.
pub fn decrypt_data(ciphertext: &[u8], key: &[u8; KEY_SIZE], nonce: &[u8; NONCE_SIZE]) -> (r:
    Result<Vec<u8>, TokenProviderError>)
    ensures
        r matches Ok(p) ==> aead_plain(ciphertext@, key@, nonce@) == Some(p@),
        r is Ok <==> aead_plain(ciphertext@, key@, nonce@) is Some,
        ciphertext@.len() < TAG_SIZE ==> r is Err,
        r matches Err(e) ==> e is CryptoError,
{
    match aes_gcm_open(ciphertext, key, nonce) {
        Some(p) => Ok(p),
        None => Err(
            TokenProviderError::CryptoError("Key or IV mismatch, or data corruption".to_owned()),
        ),
    }
}

} // verus!
