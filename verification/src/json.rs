//! JSON text, read and written through `serde_json`.
//!
//! The items of this module are trusted: their contracts describe what
//! `serde_json` does and are not proved. What a call returns is given a name
//! without a definition, so that the contracts of the callers can speak of
//! it; nothing else is claimed of these names.

use vstd::prelude::*;

verus! {

/// A parsed JSON value of `serde_json`. Opaque to the verifier.
#[verifier::external_type_specification]
#[verifier::external_body]
pub struct ExValue(serde_json::Value);

/// The error of `serde_json`. Opaque to the verifier.
#[verifier::external_type_specification]
#[verifier::external_body]
pub struct ExError(serde_json::Error);

/// What a JSON value holds under a key, as far as this library reads it.
#[derive(Debug)]
pub enum Member {
    /// The value is no object, or the object has no such key.
    Absent,
    /// The key is there and holds `null`.
    Null,
    /// The key is there and holds a string.
    Text(String),
    /// The key is there and holds something else.
    Other,
}

/// The mathematical form of a `Member`.
pub enum MemberView {
    Absent,
    Null,
    Text(Seq<char>),
    Other,
}

impl View for Member {
    type V = MemberView;

    open spec fn view(&self) -> MemberView {
        match *self {
            Member::Absent => MemberView::Absent,
            Member::Null => MemberView::Null,
            Member::Text(text) => MemberView::Text(text@),
            Member::Other => MemberView::Other,
        }
    }
}

/// The JSON string literal that `serde_json` writes for a text: the text in
/// double quotes, with the escapes of `serde_json`.
pub uninterp spec fn quoted(text: Seq<char>) -> Seq<char>;

/// The members of the JSON document that a text is, keyed by name; `None`
/// where `serde_json` does not accept the text.
pub uninterp spec fn document(text: Seq<char>) -> Option<Map<Seq<char>, MemberView>>;

/// The members of a parsed value, keyed by name. A value that is no object
/// has none.
pub uninterp spec fn members(value: serde_json::Value) -> Map<Seq<char>, MemberView>;

/// What a set of members holds under a key.
pub open spec fn lookup(all: Map<Seq<char>, MemberView>, key: Seq<char>) -> MemberView {
    if all.contains_key(key) {
        all[key]
    } else {
        MemberView::Absent
    }
}

/// Calls the `Display` implementation of `serde_json::Value` on a string
/// value. The contract claims that the result is a function of the text
/// alone, and names it `quoted`.
#[verifier::external_body]
pub(crate) fn quote(text: &str) -> (literal: String)
    ensures
        literal@ == quoted(text@),
{
    serde_json::Value::String(text.to_owned()).to_string()
}

/// Calls `serde_json::from_str` at the type `serde_json::Value`. The contract
/// claims that acceptance and the parsed members are a function of the text
/// alone, and names them `document`.
#[verifier::external_body]
pub(crate) fn parse(text: &str) -> (parsed: Result<serde_json::Value, serde_json::Error>)
    ensures
        match parsed {
            Ok(value) => document(text@) == Some(members(value)),
            Err(_) => document(text@) is None,
        },
{
    serde_json::from_str::<serde_json::Value>(text)
}

/// Calls `serde_json::Value::get` with a string key. The contract claims that
/// the result is what `members` holds under the key: absent where the value
/// is no object or lacks the key, and else told apart by the kind of the
/// value found, a string handed out as it is.
#[verifier::external_body]
pub(crate) fn member(value: &serde_json::Value, key: &str) -> (found: Member)
    ensures
        found@ == lookup(members(*value), key@),
{
    match value.get(key) {
        None => Member::Absent,
        Some(serde_json::Value::Null) => Member::Null,
        Some(serde_json::Value::String(text)) => Member::Text(text.clone()),
        Some(_) => Member::Other,
    }
}

} // verus!
