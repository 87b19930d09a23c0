//! The JSON reader that the envelope check stands on.
//!
//! Parsing is left to `serde_json`. Nothing in this file is proved: each
//! contract says what the library believes of the function that its body
//! calls.

use vstd::prelude::*;

verus! {

#[verifier::external_type_specification]
#[verifier::external_body]
pub struct ExValue(serde_json::Value);

/// What `serde_json::from_str` makes of a text: for a text that is JSON, the
/// members of its top-level object (see [`json_members`]); for any other
/// text, the parser's complaint as it prints it.
pub uninterp spec fn json_parse(text: Seq<char>) -> Result<
    Map<Seq<char>, Option<Seq<char>>>,
    Seq<char>,
>;

/// The members of a JSON object by name. A member that is a JSON string is
/// mapped to its text, a member of any other type to `None`. A document that
/// is not an object has no members.
pub uninterp spec fn json_members(doc: serde_json::Value) -> Map<Seq<char>, Option<Seq<char>>>;

/// The text of a JSON value that is a string, and `None` for a value of any
/// other type.
pub uninterp spec fn json_text(value: serde_json::Value) -> Option<Seq<char>>;

/// Calls `serde_json::from_str` for a `serde_json::Value`. The outcome
/// depends on the text alone, and [`json_parse`] is its name: the document
/// that comes back holds the members named there, and a failure carries the
/// error as `serde_json::Error` prints it.
#[verifier::external_body]
pub(crate) fn parse_json(text: &str) -> (r: Result<serde_json::Value, String>)
    ensures
        match json_parse(text@) {
            Ok(members) => r matches Ok(doc) && json_members(doc) == members,
            Err(reason) => r matches Err(message) && message@ == reason,
        },
{
    match serde_json::from_str::<serde_json::Value>(text) {
        Ok(doc) => Ok(doc),
        Err(e) => Err(e.to_string()),
    }
}

/// Calls `serde_json::Value::get` with a string key: the member of that name
/// where the value is an object that has one, else `None`.
#[verifier::external_body]
pub(crate) fn json_get<'a>(doc: &'a serde_json::Value, key: &str) -> (r: Option<
    &'a serde_json::Value,
>)
    ensures
        r is Some <==> json_members(*doc).dom().contains(key@),
        r matches Some(value) ==> json_text(*value) == json_members(*doc)[key@],
{
    doc.get(key)
}

/// Calls `serde_json::Value::as_str`: the text where the value is a JSON
/// string, else `None`.
#[verifier::external_body]
pub(crate) fn json_as_str<'a>(value: &'a serde_json::Value) -> (r: Option<&'a str>)
    ensures
        match r {
            Some(text) => json_text(*value) == Some(text@),
            None => json_text(*value) is None,
        },
{
    value.as_str()
}

} // verus!
