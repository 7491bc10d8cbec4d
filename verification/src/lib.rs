//! Verified core of a small configuration-provisioning tool.
//!
//! An encrypted configuration blob is decrypted with a key and nonce that the
//! user supplies as base64 text, the plaintext is parsed as a JSON-like
//! document, and the result is deep-merged into an existing configuration
//! document.  The decrypt-validate-merge pipeline is specified and verified
//! here; prompting, file access and self-removal live in the unverified
//! front end.

pub mod crypto;
pub mod document;
pub mod errors;
pub mod input;
pub mod merger;
pub mod pipeline;
pub mod store;
pub mod types;

pub use errors::Base64Issue;
pub use errors::TokenProviderError;
