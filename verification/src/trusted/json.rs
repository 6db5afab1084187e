//! Reading and writing JSON text, done by `serde_json`.
//!
//! Every function here takes text and gives text: a document is parsed
//! anew by each call, and no parsed value leaves this file. A position in a
//! document is given as a JSON Pointer, such as `/choices/0/delta/content`.

use serde_json::Value;
use vstd::prelude::*;

verus! {

/// What `serde_json` makes of a text as a JSON string: the text between
/// double quotes, with escapes; `None` where it reports an error.
pub uninterp spec fn json_quoted(s: Seq<char>) -> Option<Seq<char>>;

/// Calls `serde_json::to_string` on a text. The contract only gives the
/// result a name; an error of the call becomes `None`.
#[verifier::external_body]
pub(crate) fn quote(s: &str) -> (r: Option<String>)
    ensures
        r is Some == json_quoted(s@) is Some,
        r is Some ==> r->0@ == json_quoted(s@)->0,
{
    serde_json::to_string(s).ok()
}

/// Mathematical value of the answer of [`string_at`].
pub open spec fn found_text(r: Option<Option<String>>) -> Option<Option<Seq<char>>> {
    match r {
        Some(Some(s)) => Some(Some(s@)),
        Some(None) => Some(None),
        None => None,
    }
}

/// Mathematical value of an optional text.
pub open spec fn some_text(r: Option<String>) -> Option<Seq<char>> {
    match r {
        Some(s) => Some(s@),
        None => None,
    }
}

/// The text at a position of a document: `None` where the document is no
/// JSON, `Some(None)` where it has no text at that position.
pub uninterp spec fn json_string_at(text: Seq<char>, pointer: Seq<char>) -> Option<
    Option<Seq<char>>,
>;

/// Calls `serde_json::from_str`, `Value::pointer` and `Value::as_str`. The
/// contract only gives the result a name.
#[verifier::external_body]
pub(crate) fn string_at(text: &str, pointer: &str) -> (r: Option<Option<String>>)
    ensures
        found_text(r) == json_string_at(text@, pointer@),
{
    let parsed = serde_json::from_str::<Value>(text).ok();
    parsed.map(|v| v.pointer(pointer).and_then(|x| x.as_str()).map(|s| s.to_string()))
}

/// The boolean at a position of a document, where the document is JSON and
/// has one there.
pub uninterp spec fn json_bool_at(text: Seq<char>, pointer: Seq<char>) -> Option<bool>;

/// Calls `serde_json::from_str`, `Value::pointer` and `Value::as_bool`. The
/// contract only gives the result a name.
#[verifier::external_body]
pub(crate) fn bool_at(text: &str, pointer: &str) -> (r: Option<bool>)
    ensures
        r == json_bool_at(text@, pointer@),
{
    let parsed = serde_json::from_str::<Value>(text).ok();
    parsed.and_then(|v| v.pointer(pointer).and_then(|x| x.as_bool()))
}

/// The value at a position of a document, written out compactly, where
/// the document is JSON and has a value there.
pub uninterp spec fn json_value_at(text: Seq<char>, pointer: Seq<char>) -> Option<Seq<char>>;

/// Calls `serde_json::from_str` and `Value::pointer`, and prints what was
/// found by the `Display` impl of `Value`. The contract only gives the
/// result a name.
#[verifier::external_body]
pub(crate) fn value_at(text: &str, pointer: &str) -> (r: Option<String>)
    ensures
        some_text(r) == json_value_at(text@, pointer@),
{
    let parsed = serde_json::from_str::<Value>(text).ok();
    parsed.and_then(|v| v.pointer(pointer).map(|x| x.to_string()))
}

/// The document with the value at a position replaced by a text, written
/// out compactly, where the document is JSON and has a value there.
pub uninterp spec fn json_with_string_at(
    text: Seq<char>,
    pointer: Seq<char>,
    replacement: Seq<char>,
) -> Option<Seq<char>>;

/// Calls `serde_json::from_str` and `Value::pointer_mut`, stores a
/// `Value::String` there, and prints the document by the `Display` impl of
/// `Value`. The contract only gives the result a name.
#[verifier::external_body]
pub(crate) fn with_string_at(text: &str, pointer: &str, replacement: &str) -> (r: Option<String>)
    ensures
        some_text(r) == json_with_string_at(text@, pointer@, replacement@),
{
    let mut document = serde_json::from_str::<Value>(text).ok()?;
    *document.pointer_mut(pointer)? = Value::String(replacement.to_string());
    Some(document.to_string())
}

} // verus!
