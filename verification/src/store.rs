//! The compute side of the configuration store.
//!
//! Reading and writing the configuration file is the front end's business;
//! what the store decides — whether file content yields a base document, and
//! what the merged result must be — is specified and verified here.  Parsing
//! itself is serde_json's work, behind a trusted boundary that hands over
//! plain, well-formed documents.

use vstd::prelude::*;

use crate::document::doc_wf;
use crate::document::DocView;
use crate::document::Document;
use crate::merger::deep_merge_json;
use crate::merger::merge_doc;

verus! {

/// serde_json's value type, declared so the parse boundary can carry it.
#[verifier::external_type_specification]
#[verifier::external_body]
pub struct ExJsonValue(serde_json::Value);

/// What parsing a text as JSON yields: the document it denotes, or nothing
/// when the text is not JSON.  The result depends on the text alone.
pub uninterp spec fn json_parse(text: Seq<char>) -> Option<DocView>;

/// Converts a parsed JSON value into a document, one node for one node;
/// numbers are carried as their decimal text.  JSON objects have unique
/// keys, so the result is well-formed.
#[verifier::external_body]
fn document_from_value(v: &serde_json::Value) -> (r: Document)
    ensures
        doc_wf(r),
{
    match v {
        serde_json::Value::Null => Document::Null,
        serde_json::Value::Bool(b) => Document::Bool(*b),
        serde_json::Value::Number(n) => Document::Num(n.to_string()),
        serde_json::Value::String(s) => Document::Str(s.clone()),
        serde_json::Value::Array(items) => Document::Arr(
            items.iter().map(document_from_value).collect(),
        ),
        serde_json::Value::Object(map) => Document::Obj(
            map.iter().map(|(k, val)| (k.clone(), document_from_value(val))).collect(),
        ),
    }
}

/// Relies on serde_json's `from_str`: whether a text parses as JSON, and
/// which document it denotes, depend on the text alone.  On success the
/// document comes back well-formed; on failure, the parser's description.
#[verifier::external_body]
pub(crate) fn parse_document(text: &str) -> (r: Result<Document, String>)
    ensures
        r matches Ok(d) ==> json_parse(text@) == Some(d@) && doc_wf(d),
        r is Err ==> json_parse(text@) is None,
{
    match serde_json::from_str::<serde_json::Value>(text) {
        Ok(v) => Ok(document_from_value(&v)),
        Err(e) => Err(e.to_string()),
    }
}

/// The store's read policy: a missing file yields no base document, a file
/// that does not parse yields none either (corrupted content is discarded,
/// never an error), and a parsable file yields its document.
pub fn interpret_config_content(content: Option<&str>) -> (r: Option<Document>)
    ensures
        content is None ==> r is None,
        content matches Some(text) ==> match json_parse(text@) {
            Some(d) => r matches Some(doc) && doc@ == d && doc_wf(doc),
            None => r is None,
        },
{
    match content {
        None => None,
        Some(text) => match parse_document(text) {
            Ok(d) => Some(d),
            Err(_) => None,
        },
    }
}

/// The store's apply policy: merge the fresh document into the existing
/// base when there is one; without a base the fresh document stands alone.
pub fn merged_config(existing: Option<Document>, fresh: Document) -> (r: Document)
    ensures
        (doc_wf(fresh) && (existing matches Some(e) ==> doc_wf(e))) ==> ({
            &&& r@ == (match existing {
                Some(e) => merge_doc(e@, fresh@),
                None => fresh@,
            })
            &&& doc_wf(r)
        }),
{
    match existing {
        Some(mut base) => {
            let _ = deep_merge_json(&mut base, fresh);
            base
        },
        None => fresh,
    }
}

} // verus!
