//! Error taxonomy of the pipeline.
//!
//! Faults from outside libraries are mapped to plain data at the trust
//! boundary, so every variant here carries only values the verifier can see.

use vstd::prelude::*;

verus! {

/// The decoding faults that the base64 library reports, held as plain values.
#[derive(Clone, Debug, PartialEq, Eq, Structural)]
pub enum Base64Issue {
    /// A byte outside the encoding alphabet, with its position and value.
    InvalidByte(usize, u8),
    /// An input length no base64 encoding can have.
    InvalidLength(usize),
    /// A final symbol that leaves trailing bits, with its position and value.
    InvalidLastSymbol(usize, u8),
    /// Padding that is absent, excessive, or misplaced.
    InvalidPadding,
}

/// Every failure the pipeline can surface.
#[derive(Clone, Debug)]
pub enum TokenProviderError {
    /// The supplied text is not valid base64.
    InvalidBase64(Base64Issue),
    /// The key text decoded to `actual` bytes instead of 32.
    InvalidKeyLength { actual: usize },
    /// The nonce text decoded to `actual` bytes instead of 12.
    InvalidIvLength { actual: usize },
    /// Authenticated decryption (or encryption) failed.
    CryptoError(String),
    /// The decrypted plaintext is not a JSON document.
    JsonError(String),
    /// A filesystem operation failed.
    IoError(String),
    /// Removing the running executable failed.
    SelfDeletionError(String),
}

impl TokenProviderError {
    /// True exactly for the faults a caller may recover from by prompting
    /// for fresh input.
    pub fn is_recoverable(&self) -> (r: bool)
        ensures
            r == (*self is InvalidBase64 || *self is InvalidKeyLength || *self is InvalidIvLength),
    {
        match self {
            TokenProviderError::InvalidBase64(_)
            | TokenProviderError::InvalidKeyLength { .. }
            | TokenProviderError::InvalidIvLength { .. } => true,
            _ => false,
        }
    }

    /// A message fit for the user: fixed guidance for the input and crypto
    /// faults, the stored description for the rest.
    pub fn user_message(&self) -> (r: String)
        ensures
            *self is InvalidBase64 ==> r@ == "Please check your base64 input format"@,
            *self is InvalidKeyLength ==> r@ == "Secret key must be exactly 32 bytes when decoded"@,
            *self is InvalidIvLength ==> r@ == "IV/Nonce must be exactly 12 bytes when decoded"@,
            *self is CryptoError ==> r@ == "Key or IV mismatch, or data corruption detected"@,
            *self matches TokenProviderError::JsonError(m) ==> r@ == m@,
            *self matches TokenProviderError::IoError(m) ==> r@ == m@,
            *self matches TokenProviderError::SelfDeletionError(m) ==> r@ == m@,
    {
        match self {
            TokenProviderError::InvalidBase64(_) => "Please check your base64 input format".to_owned(),
            TokenProviderError::InvalidKeyLength { .. } => {
                "Secret key must be exactly 32 bytes when decoded".to_owned()
            },
            TokenProviderError::InvalidIvLength { .. } => {
                "IV/Nonce must be exactly 12 bytes when decoded".to_owned()
            },
            TokenProviderError::CryptoError(_) => {
                "Key or IV mismatch, or data corruption detected".to_owned()
            },
            TokenProviderError::JsonError(m) => m.clone(),
            TokenProviderError::IoError(m) => m.clone(),
            TokenProviderError::SelfDeletionError(m) => m.clone(),
        }
    }
}

} // verus!
