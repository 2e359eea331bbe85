//! JSON values of `serde_json`, seen from outside.
use vstd::prelude::*;
use serde_json::Value;

verus! {

/// `serde_json::Value`, a JSON value.
#[verifier::external_type_specification]
#[verifier::external_body]
pub struct ExValue(serde_json::Value);

/// `serde_json::Error`, the reason why a text is no JSON document.
#[verifier::external_type_specification]
#[verifier::external_body]
pub struct ExJsonError(serde_json::Error);

/// The value that `serde_json::from_str` reads from a text; `None` where it reports an error.
pub uninterp spec fn parsed_json(text: Seq<char>) -> Option<Value>;

/// The text that `serde_json::Value::to_string` writes for a value.
pub uninterp spec fn rendered(value: Value) -> Seq<char>;

/// Whether a value is the JSON `null`.
pub uninterp spec fn is_null(value: Value) -> bool;

/// The text that a value holds, if it is a JSON string.
pub uninterp spec fn string_held(value: Value) -> Option<Seq<char>>;

/// Whether a value is a JSON object.
pub uninterp spec fn is_object(value: Value) -> bool;

/// The members of a JSON object by name.
pub uninterp spec fn members(value: Value) -> Map<Seq<char>, Value>;

/// The members of a JSON object that hold texts, and the texts that they hold.
pub open spec fn text_members(value: Value) -> Map<Seq<char>, Seq<char>> {
    Map::new(
        |name: Seq<char>| members(value).contains_key(name) && string_held(
            members(value)[name],
        ) is Some,
        |name: Seq<char>| string_held(members(value)[name])->Some_0,
    )
}

/// The texts of an empty object.
pub open spec fn no_members() -> Map<Seq<char>, Seq<char>> {
    Map::empty()
}

/// Calls `serde_json::from_str` for a `Value`. Claims that whether the text is accepted,
/// and the value read from it, depend on the text alone.
#[verifier::external_body]
pub(crate) fn parse_json(text: &str) -> (result: Result<Value, serde_json::Error>)
    ensures
        parsed_json(text@) == result.ok(),
{
    serde_json::from_str(text)
}

/// Calls `serde_json::Value::to_string`. Claims that the text depends on the value alone.
#[verifier::external_body]
pub(crate) fn json_text(value: &Value) -> (text: String)
    ensures
        text@ == rendered(*value),
{
    value.to_string()
}

/// Makes `serde_json::Value::String`. Claims that the value is a JSON string that holds
/// the text.
#[verifier::external_body]
pub(crate) fn json_string(text: String) -> (value: Value)
    ensures
        string_held(value) == Some(text@),
        !is_null(value),
        !is_object(value),
{
    Value::String(text)
}

/// Makes `serde_json::Value::Null`. Claims that the value is the JSON `null`.
#[verifier::external_body]
pub(crate) fn json_null() -> (value: Value)
    ensures
        is_null(value),
        string_held(value) is None,
        !is_object(value),
{
    Value::Null
}

/// Makes `serde_json::Value::Object` from `serde_json::Map::new`. Claims that the value is
/// a JSON object without members.
#[verifier::external_body]
pub(crate) fn json_object() -> (value: Value)
    ensures
        is_object(value),
        !is_null(value),
        string_held(value) is None,
        members(value).is_empty(),
{
    Value::Object(serde_json::Map::new())
}

/// Calls `serde_json::Map::insert` on the map that `serde_json::Value::as_object_mut`
/// gives. Claims that in an object the member `name` becomes the string `text` and the
/// other members stay, and that a value that is no object stays as it is.
#[verifier::external_body]
pub(crate) fn set_text_member(value: &mut Value, name: String, text: String)
    ensures
        is_object(*final(value)) == is_object(*old(value)),
        is_object(*old(value)) ==> {
            &&& members(*final(value)) == members(*old(value)).insert(
                name@,
                members(*final(value))[name@],
            )
            &&& string_held(members(*final(value))[name@]) == Some(text@)
        },
        !is_object(*old(value)) ==> *final(value) == *old(value),
{
    if let Some(members) = value.as_object_mut() {
        members.insert(name, Value::String(text));
    }
}

} // verus!
