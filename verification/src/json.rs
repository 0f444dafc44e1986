//! JSON texts as `serde_json` reads them: whether a text is JSON, and what a
//! JSON pointer finds in it. What the parser accepts is named, not restated.
use vstd::prelude::*;

verus! {

/// The message of the error `serde_json::from_str` gives when `text` is not
/// JSON; none when it is.
pub uninterp spec fn json_syntax_error(text: Seq<char>) -> Option<Seq<char>>;

/// The string that JSON pointer `pointer` finds in the JSON text `text`:
/// none when the text is not JSON, nothing is there, or it is not a string.
pub uninterp spec fn json_str_at(text: Seq<char>, pointer: Seq<char>) -> Option<Seq<char>>;

/// The unsigned 64-bit number that `pointer` finds in `text`: none when the
/// text is not JSON, nothing is there, or it is no such number.
pub uninterp spec fn json_u64_at(text: Seq<char>, pointer: Seq<char>) -> Option<u64>;

/// The boolean that `pointer` finds in `text`: none when the text is not
/// JSON, nothing is there, or it is not a boolean.
pub uninterp spec fn json_bool_at(text: Seq<char>, pointer: Seq<char>) -> Option<bool>;

/// Whether `pointer` finds a value (`null` included) in the JSON text `text`.
pub uninterp spec fn json_has_at(text: Seq<char>, pointer: Seq<char>) -> bool;

/// The length of the array that `pointer` finds in `text`: none when the
/// text is not JSON, nothing is there, or it is not an array.
pub uninterp spec fn json_array_len_at(text: Seq<char>, pointer: Seq<char>) -> Option<nat>;

/// `serde_json::from_str::<Value>` on `text`, and the `Display` text of its
/// error when it fails.
#[verifier::external_body]
pub fn syntax_error(text: &str) -> (r: Option<String>)
    ensures
        match r { Some(m) => Some(m@), None => None } == json_syntax_error(text@),
{
    match serde_json::from_str::<serde_json::Value>(text) {
        Ok(_) => None,
        Err(e) => Some(e.to_string()),
    }
}

/// `serde_json::from_str::<Value>` on `text`, then `Value::pointer` and
/// `Value::as_str`.
#[verifier::external_body]
pub fn str_at(text: &str, pointer: &str) -> (r: Option<String>)
    ensures
        match r { Some(s) => Some(s@), None => None } == json_str_at(text@, pointer@),
{
    match serde_json::from_str::<serde_json::Value>(text) {
        Ok(v) => v.pointer(pointer).and_then(|x| x.as_str()).map(|x| x.to_string()),
        Err(_) => None,
    }
}

/// `serde_json::from_str::<Value>` on `text`, then `Value::pointer` and
/// `Value::as_u64`.
#[verifier::external_body]
pub fn u64_at(text: &str, pointer: &str) -> (r: Option<u64>)
    ensures
        r == json_u64_at(text@, pointer@),
{
    match serde_json::from_str::<serde_json::Value>(text) {
        Ok(v) => v.pointer(pointer).and_then(|x| x.as_u64()),
        Err(_) => None,
    }
}

/// `serde_json::from_str::<Value>` on `text`, then `Value::pointer` and
/// `Value::as_bool`.
#[verifier::external_body]
pub fn bool_at(text: &str, pointer: &str) -> (r: Option<bool>)
    ensures
        r == json_bool_at(text@, pointer@),
{
    match serde_json::from_str::<serde_json::Value>(text) {
        Ok(v) => v.pointer(pointer).and_then(|x| x.as_bool()),
        Err(_) => None,
    }
}

/// `serde_json::from_str::<Value>` on `text`, then whether `Value::pointer`
/// finds anything.
#[verifier::external_body]
pub fn has_at(text: &str, pointer: &str) -> (r: bool)
    ensures
        r == json_has_at(text@, pointer@),
{
    match serde_json::from_str::<serde_json::Value>(text) {
        Ok(v) => v.pointer(pointer).is_some(),
        Err(_) => false,
    }
}

/// `serde_json::from_str::<Value>` on `text`, then `Value::pointer`,
/// `Value::as_array` and its length.
#[verifier::external_body]
pub fn array_len_at(text: &str, pointer: &str) -> (r: Option<usize>)
    ensures
        match r { Some(n) => Some(n as nat), None => None } == json_array_len_at(text@, pointer@),
{
    match serde_json::from_str::<serde_json::Value>(text) {
        Ok(v) => v.pointer(pointer).and_then(|x| x.as_array()).map(|a| a.len()),
        Err(_) => None,
    }
}

} // verus!
