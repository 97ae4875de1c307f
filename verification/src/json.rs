//! Pretty-printing of JSON text.
use vstd::prelude::*;

verus! {

/// Why a JSON text could not be pretty-printed.
#[derive(Clone, Copy, Debug, PartialEq, Eq, Structural)]
pub enum JsonError {
    /// The text does not parse as JSON.
    Parse,
}

/// What parsing a JSON text and re-serialising it with standard indentation
/// yields: `None` where the text does not parse, otherwise the indented
/// rendering; a function of the text alone.
pub uninterp spec fn json_pretty(s: Seq<char>) -> Option<Seq<char>>;

/// Relies on `serde_json::from_str::<Value>` and
/// `serde_json::to_string_pretty`: parsing fails exactly on malformed JSON,
/// both steps depend on the text alone, and pretty-printing a `Value` does
/// not fail.
#[verifier::external_body]
fn json_pretty_raw(s: &str) -> (r: Option<String>)
    ensures
        r is Some <==> json_pretty(s@) is Some,
        r is Some ==> r.unwrap()@ == json_pretty(s@).unwrap(),
{
    match serde_json::from_str::<serde_json::Value>(s) {
        Ok(v) => match serde_json::to_string_pretty(&v) {
            Ok(p) => Some(p),
            Err(_) => None,
        },
        Err(_) => None,
    }
}

/// Pretty-prints a JSON text with standard indentation; rejects text that
/// does not parse as JSON.
pub fn pretty_json_from_string(json_str: &str) -> (r: Result<String, JsonError>)
    ensures
        r is Ok <==> json_pretty(json_str@) is Some,
        r is Ok ==> r->Ok_0@ == json_pretty(json_str@).unwrap(),
        r is Err ==> r == Err::<String, JsonError>(JsonError::Parse),
{
    match json_pretty_raw(json_str) {
        Some(p) => Ok(p),
        None => Err(JsonError::Parse),
    }
}

} // verus!
