use vstd::prelude::*;

verus! {

/// A JSON document as a mathematical value. Numbers are not told apart: no
/// decision in this crate depends on one.
pub enum Json {
    Null,
    Bool(bool),
    Number,
    String(Seq<char>),
    Array(Seq<Json>),
    Object(Map<Seq<char>, Json>),
}

#[verifier::external_type_specification]
#[verifier::external_body]
pub struct ExJsonValue(serde_json::Value);

#[verifier::external_type_specification]
#[verifier::external_body]
pub struct ExJsonError(serde_json::Error);

/// The document that a `serde_json::Value` holds.
pub uninterp spec fn json_model(value: serde_json::Value) -> Json;

/// What `serde_json::from_slice` reads a byte string as when a
/// `serde_json::Value` is asked for, or `None` where it reports an error. The
/// JSON grammar is not restated here.
pub uninterp spec fn json_parsed(bytes: Seq<u8>) -> Option<Json>;

/// `serde_json::from_slice::<Value>`. Trusted: the result is a function of
/// the bytes alone, named `json_parsed`.
#[verifier::external_body]
pub(crate) fn parse_json(bytes: &[u8]) -> (r: Result<serde_json::Value, serde_json::Error>)
    ensures
        r is Ok <==> json_parsed(bytes@) is Some,
        r matches Ok(value) ==> json_parsed(bytes@) == Some(json_model(value)),
{
    serde_json::from_slice::<serde_json::Value>(bytes)
}

/// The `Display` text of a `serde_json` error. Trusted; nothing is claimed
/// of the text.
#[verifier::external_body]
pub(crate) fn json_error_text(e: &serde_json::Error) -> String {
    format!("{}", e)
}

/// `Value::get` with a string key. Trusted: the crate's source returns the
/// member of that name where the value is an object that has one, and
/// nothing otherwise.
#[verifier::external_body]
pub(crate) fn json_get<'a>(value: &'a serde_json::Value, key: &str) -> (r: Option<
    &'a serde_json::Value,
>)
    ensures
        match json_model(*value) {
            Json::Object(members) => if members.dom().contains(key@) {
                r matches Some(member) && json_model(*member) == members[key@]
            } else {
                r is None
            },
            _ => r is None,
        },
{
    value.get(key)
}

/// `Value::as_str`. Trusted: the crate's source returns the text where the
/// value is a string, and nothing otherwise.
#[verifier::external_body]
pub(crate) fn json_as_str<'a>(value: &'a serde_json::Value) -> (r: Option<&'a str>)
    ensures
        match json_model(*value) {
            Json::String(text) => r matches Some(s) && s@ == text,
            _ => r is None,
        },
{
    value.as_str()
}

/// `Value::as_bool`. Trusted: the crate's source returns the truth value
/// where the value is a boolean, and nothing otherwise.
#[verifier::external_body]
pub(crate) fn json_as_bool(value: &serde_json::Value) -> (r: Option<bool>)
    ensures
        match json_model(*value) {
            Json::Bool(b) => r == Some(b),
            _ => r is None,
        },
{
    value.as_bool()
}

/// `Value::as_array`. Trusted: the crate's source returns the items in order
/// where the value is an array, and nothing otherwise.
#[verifier::external_body]
pub(crate) fn json_as_array<'a>(value: &'a serde_json::Value) -> (r: Option<
    &'a Vec<serde_json::Value>,
>)
    ensures
        match json_model(*value) {
            Json::Array(items) => r matches Some(v) && v@.len() == items.len() && forall|i: int|
                0 <= i < items.len() ==> json_model(#[trigger] v@[i]) == items[i],
            _ => r is None,
        },
{
    value.as_array()
}

/// `Clone` for `serde_json::Value`. Trusted: the copy holds the same document.
pub assume_specification[ <serde_json::Value as Clone>::clone ](
    value: &serde_json::Value,
) -> (r: serde_json::Value)
    ensures
        json_model(r) == json_model(*value),
;

} // verus!
