//! The decrypt-validate-merge pipeline.
//!
//! From the credential texts, the embedded ciphertext, and the existing
//! configuration, the pipeline owes exactly one outcome: a typed failure at
//! the first stage that refuses its input, or the merged document.  The
//! front end only performs I/O around this function.

use vstd::prelude::*;
use vstd::string::StringSliceAdditionalSpecFns;
use vstd::utf8::decode_utf8;
use vstd::utf8::valid_utf8;

use crate::crypto::aead_plain;
use crate::crypto::base64_decoding;
use crate::crypto::decode_and_validate_key;
use crate::crypto::decode_and_validate_nonce;
use crate::crypto::decrypt_data;
use crate::crypto::KEY_SIZE;
use crate::crypto::NONCE_SIZE;
use crate::document::doc_wf;
use crate::document::DocView;
use crate::document::Document;
use crate::errors::TokenProviderError;
use crate::merger::merge_doc;
use crate::store::json_parse;
use crate::store::merged_config;
use crate::store::parse_document;

verus! {

/// The shapes of the documents handed in as the existing configuration.
pub open spec fn option_doc_view(d: Option<Document>) -> Option<DocView> {
    match d {
        Some(x) => Some(x@),
        None => None,
    }
}

/// The one outcome the pipeline owes for given inputs: the first failing
/// stage, or the merged document.
pub enum PipelineOutcome {
    /// The key text is not base64.
    KeyNotBase64,
    /// The key decoded to this many bytes instead of 32.
    KeyWrongLength(nat),
    /// The nonce text is not base64.
    NonceNotBase64,
    /// The nonce decoded to this many bytes instead of 12.
    NonceWrongLength(nat),
    /// The embedded ciphertext is empty.
    MissingCiphertext,
    /// The authentication tag did not verify.
    AuthenticationFailure,
    /// The decrypted plaintext is not UTF-8.
    PlaintextNotUtf8,
    /// The decrypted plaintext is not a JSON document.
    PlaintextNotJson,
    /// Every stage passed; this is the merged document.
    Applied(DocView),
}

/// The pipeline, stage by stage: decode the key, decode the nonce, refuse an
/// empty ciphertext, decrypt and authenticate, decode UTF-8, parse JSON, and
/// merge into the existing configuration.
pub open spec fn pipeline_outcome(
    key_text: Seq<u8>,
    nonce_text: Seq<u8>,
    ciphertext: Seq<u8>,
    existing: Option<DocView>,
) -> PipelineOutcome {
    match base64_decoding(key_text) {
        None => PipelineOutcome::KeyNotBase64,
        Some(key) => if key.len() != KEY_SIZE {
            PipelineOutcome::KeyWrongLength(key.len())
        } else {
            match base64_decoding(nonce_text) {
                None => PipelineOutcome::NonceNotBase64,
                Some(nonce) => if nonce.len() != NONCE_SIZE {
                    PipelineOutcome::NonceWrongLength(nonce.len())
                } else if ciphertext.len() == 0 {
                    PipelineOutcome::MissingCiphertext
                } else {
                    match aead_plain(ciphertext, key, nonce) {
                        None => PipelineOutcome::AuthenticationFailure,
                        Some(plain) => if !valid_utf8(plain) {
                            PipelineOutcome::PlaintextNotUtf8
                        } else {
                            match json_parse(decode_utf8(plain)) {
                                None => PipelineOutcome::PlaintextNotJson,
                                Some(doc) => PipelineOutcome::Applied(
                                    match existing {
                                        Some(e) => merge_doc(e, doc),
                                        None => doc,
                                    },
                                ),
                            }
                        },
                    }
                },
            }
        },
    }
}

/// Relies on std's `String::from_utf8`: it succeeds exactly on valid UTF-8
/// input and returns the decoded characters.
#[verifier::external_body]
fn bytes_to_utf8(bytes: Vec<u8>) -> (r: Option<String>)
    ensures
        r matches Some(s) ==> valid_utf8(bytes@) && s@ == decode_utf8(bytes@),
        r is None ==> !valid_utf8(bytes@),
{
    String::from_utf8(bytes).ok()
}

/// Runs the whole pipeline.  The result follows [`pipeline_outcome`]: each
/// failing stage maps to its error, and when every stage passes the merged,
/// well-formed document comes back.
pub fn apply_encrypted_config(
    key_text: &str,
    nonce_text: &str,
    ciphertext: &[u8],
    existing: Option<Document>,
) -> (r: Result<Document, TokenProviderError>)
    ensures
        ({
            let outcome = pipeline_outcome(
                key_text.spec_bytes(),
                nonce_text.spec_bytes(),
                ciphertext@,
                option_doc_view(existing),
            );
            &&& (r is Ok <==> outcome is Applied)
            &&& (outcome is KeyNotBase64 ==> (r matches Err(e) && e is InvalidBase64))
            &&& (outcome matches PipelineOutcome::KeyWrongLength(l) ==> r == Err::<
                Document,
                TokenProviderError,
            >(TokenProviderError::InvalidKeyLength { actual: l as usize }))
            &&& (outcome is NonceNotBase64 ==> (r matches Err(e) && e is InvalidBase64))
            &&& (outcome matches PipelineOutcome::NonceWrongLength(l) ==> r == Err::<
                Document,
                TokenProviderError,
            >(TokenProviderError::InvalidIvLength { actual: l as usize }))
            &&& (outcome is MissingCiphertext ==> (r matches Err(e) && e is CryptoError))
            &&& (outcome is AuthenticationFailure ==> (r matches Err(e) && e is CryptoError))
            &&& (outcome is PlaintextNotUtf8 ==> (r matches Err(e) && e is CryptoError))
            &&& (outcome is PlaintextNotJson ==> (r matches Err(e) && e is JsonError))
            &&& ((existing matches Some(e) ==> doc_wf(e)) ==> (outcome matches
                PipelineOutcome::Applied(d) ==> (r matches Ok(doc) && doc@ == d && doc_wf(doc))))
        }),
{
    let key: [u8; KEY_SIZE] = match decode_and_validate_key(key_text) {
        Ok(k) => k,
        Err(e) => {
            return Err(e);
        },
    };
    let nonce: [u8; NONCE_SIZE] = match decode_and_validate_nonce(nonce_text) {
        Ok(n) => n,
        Err(e) => {
            return Err(e);
        },
    };
    if ciphertext.len() == 0 {
        return Err(
            TokenProviderError::CryptoError("no encrypted configuration data found".to_owned()),
        );
    }
    let plain = match decrypt_data(ciphertext, &key, &nonce) {
        Ok(p) => p,
        Err(e) => {
            return Err(e);
        },
    };
    let text = match bytes_to_utf8(plain) {
        Some(t) => t,
        None => {
            return Err(
                TokenProviderError::CryptoError("decrypted data is not valid UTF-8".to_owned()),
            );
        },
    };
    let parsed = match parse_document(text.as_str()) {
        Ok(d) => d,
        Err(m) => {
            return Err(TokenProviderError::JsonError(m));
        },
    };
    Ok(merged_config(existing, parsed))
}

} // verus!
