//! Trusted surface over the JSON library through which inbound control
//! messages are read. Each read is named as a function of the raw text
//! alone — a JSON parse depends on the characters and nothing else — so
//! the decoder's contract can say exactly which message a text decodes to.
//! Each wrapper makes one chain of outside calls on the text and converts
//! the result to a plain value.

use vstd::prelude::*;

verus! {

/// Whether a text is one well-formed JSON document: a function of the
/// characters alone.
pub uninterp spec fn json_is_doc(s: Seq<char>) -> bool;

/// The string under a top-level key of the document: `Some` exactly when
/// the text parses, is an object with the key, and the value is a JSON
/// string. A function of text and key alone.
pub uninterp spec fn json_string_field(s: Seq<char>, key: Seq<char>) -> Option<Seq<char>>;

/// The boolean under a top-level key of the document, under the same
/// conditions. A function of text and key alone.
pub uninterp spec fn json_bool_field(s: Seq<char>, key: Seq<char>) -> Option<bool>;

/// Relies on serde_json::from_str for Value: `Ok` exactly when the text
/// is one well-formed JSON document, an outcome the characters alone
/// determine.
#[verifier::external_body]
pub(crate) fn json_is_document(s: &str) -> (r: bool)
    ensures
        r == json_is_doc(s@),
{
    serde_json::from_str::<serde_json::Value>(s).is_ok()
}

/// Relies on serde_json::from_str, Value::get with a string index, and
/// Value::as_str: the string field of the document under the key, `None`
/// when the text does not parse, the key is absent, or the value is not
/// a JSON string.
#[verifier::external_body]
pub(crate) fn json_read_string_field(s: &str, key: &str) -> (r: Option<String>)
    ensures
        match (r, json_string_field(s@, key@)) {
            (Some(v), Some(d)) => v@ == d,
            (None, None) => true,
            _ => false,
        },
{
    match serde_json::from_str::<serde_json::Value>(s) {
        Ok(doc) => doc.get(key).and_then(|v| v.as_str()).map(|v| v.to_string()),
        Err(_) => None,
    }
}

/// Relies on serde_json::from_str, Value::get with a string index, and
/// Value::as_bool: the boolean field of the document under the key, under
/// the same conditions as the string read.
#[verifier::external_body]
pub(crate) fn json_read_bool_field(s: &str, key: &str) -> (r: Option<bool>)
    ensures
        r == json_bool_field(s@, key@),
{
    match serde_json::from_str::<serde_json::Value>(s) {
        Ok(doc) => doc.get(key).and_then(|v| v.as_bool()),
        Err(_) => None,
    }
}

} // verus!
