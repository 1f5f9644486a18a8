//! Values inside JSON documents.

use vstd::prelude::*;

verus! {

/// The text at a pointer in the JSON document that bytes hold, as `serde_json` gives it: `None` for
/// bytes that are no document, `Some(None)` where the pointer leads to no text.
pub uninterp spec fn json_text(document: Seq<u8>, pointer: Seq<char>) -> Option<Option<Seq<char>>>;

/// The flag at a pointer in the JSON document that bytes hold, as `serde_json` gives it: `None` for
/// bytes that are no document, `Some(None)` where the pointer leads to no flag.
pub uninterp spec fn json_flag(document: Seq<u8>, pointer: Seq<char>) -> Option<Option<bool>>;

/// The text that one JSON document is, or the description of what is wrong, as
/// `serde_json::from_str` gives it.
pub uninterp spec fn json_string(document: Seq<char>) -> Result<Seq<char>, Seq<char>>;

/// The characters of an optional text in an optional document.
pub open spec fn nested_view(text: Option<Option<String>>) -> Option<Option<Seq<char>>> {
    match text {
        Some(text) => Some(crate::chars::option_view(text)),
        None => None,
    }
}

/// Parses a document with `serde_json::from_slice` and reads the text that `Value::pointer` finds in
/// it. The result depends on the document and the pointer alone.
#[verifier::external_body]
pub(crate) fn json_text_at(document: &[u8], pointer: &str) -> (result: Option<Option<String>>)
    ensures
        nested_view(result) == json_text(document@, pointer@),
{
    let value = serde_json::from_slice::<serde_json::Value>(document).ok()?;
    Some(value.pointer(pointer).and_then(serde_json::Value::as_str).map(str::to_owned))
}

/// Parses a document with `serde_json::from_slice` and reads the flag that `Value::pointer` finds in
/// it. The result depends on the document and the pointer alone.
#[verifier::external_body]
pub(crate) fn json_flag_at(document: &[u8], pointer: &str) -> (result: Option<Option<bool>>)
    ensures
        result == json_flag(document@, pointer@),
{
    let value = serde_json::from_slice::<serde_json::Value>(document).ok()?;
    Some(value.pointer(pointer).and_then(serde_json::Value::as_bool))
}

/// Parses a document that is one text with `serde_json::from_str`. The result depends on the
/// document alone.
#[verifier::external_body]
pub(crate) fn parse_json_string(document: &str) -> (result: Result<String, String>)
    ensures
        match (result, json_string(document@)) {
            (Ok(text), Ok(expected)) => text@ == expected,
            (Err(problem), Err(expected)) => problem@ == expected,
            _ => false,
        },
{
    serde_json::from_str::<String>(document).map_err(|error| error.to_string())
}

} // verus!
