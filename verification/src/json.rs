//! Reading strings out of JSON text, through `serde_json`.
use vstd::prelude::*;

verus! {

/// The string that the JSON document `text` holds at the JSON Pointer
/// `pointer` (RFC 6901), or `None` when `text` is not JSON, nothing stands
/// there, or what stands there is not a string.
pub uninterp spec fn json_string_at(text: Seq<char>, pointer: Seq<char>) -> Option<Seq<char>>;

/// The characters of an optional string.
pub open spec fn opt_chars(o: Option<String>) -> Option<Seq<char>> {
    match o {
        Some(s) => Some(s@),
        None => None,
    }
}

/// Parses `text` with `serde_json::from_str` into a `serde_json::Value`,
/// looks it up with `Value::pointer`, and reads the result with
/// `Value::as_str`. The contract claims only that the answer is the named
/// function `json_string_at` of the two arguments, which holds since
/// parsing and lookup depend on nothing else.
#[verifier::external_body]
pub(crate) fn json_str_at(text: &str, pointer: &str) -> (r: Option<String>)
    ensures
        opt_chars(r) == json_string_at(text@, pointer@),
{
    let value: serde_json::Value = serde_json::from_str(text).ok()?;
    Some(value.pointer(pointer)?.as_str()?.to_string())
}

/// Whether `text` is a JSON document.
pub uninterp spec fn json_parses(text: Seq<char>) -> bool;

/// Parses `text` with `serde_json::from_str` into a `serde_json::Value` and
/// tells whether that succeeded. The contract claims only that the answer is
/// the named function `json_parses` of `text`, which holds since parsing
/// depends on nothing else.
#[verifier::external_body]
pub(crate) fn json_is_valid(text: &str) -> (r: bool)
    ensures
        r == json_parses(text@),
{
    serde_json::from_str::<serde_json::Value>(text).is_ok()
}

} // verus!
