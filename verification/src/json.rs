//! JSON values of `serde_json`, and what the library relies on about them.

use serde_json::Value;
use vstd::prelude::*;

verus! {

/// A JSON value of `serde_json`. Its contents are read only through the
/// functions below.
#[verifier::external_type_specification]
#[verifier::external_body]
pub struct ExValue(serde_json::Value);

/// The value that `serde_json::from_str` reads from `text`; `None` where it
/// reports an error.
pub uninterp spec fn json_value(text: Seq<char>) -> Option<Value>;

/// The compact text that `serde_json::Value` displays.
pub uninterp spec fn json_text(v: Value) -> Seq<char>;

/// The member of `v` under `key`, as `serde_json::Value::get` finds it.
pub uninterp spec fn json_member(v: Value, key: Seq<char>) -> Option<Value>;

/// The string that `v` is, as `serde_json::Value::as_str` gives it.
pub uninterp spec fn json_string(v: Value) -> Option<Seq<char>>;

/// The object with a string under `name` and the value of the JSON text
/// `arguments` under `arguments`, as text.
pub open spec fn call_object(name: Seq<char>, arguments: Seq<char>) -> Seq<char> {
    "{\"name\": \""@ + name + "\", \"arguments\": "@ + arguments + "}"@
}

/// Whether the characters of `s` stand for themselves in a JSON string: none is a
/// quotation mark, a backslash or a control character.
pub open spec fn is_plain(s: Seq<char>) -> bool {
    forall|i: int| 0 <= i < s.len() ==> (#[trigger] s[i]) != '"' && s[i] != '\\' && s[i] >= ' '
}

/// Whether `arguments` is JSON text, with room for one more level around it.
pub open spec fn is_nested_json(arguments: Seq<char>) -> bool {
    json_value(arguments) is Some && json_value("["@ + arguments + "]"@) is Some
}

/// Whether `r` has both members of the object that `text` is, where it is one that
/// [`call_object`] writes from a plain name and JSON text.
pub open spec fn holds_call(text: Seq<char>, r: Option<Value>) -> bool {
    forall|name: Seq<char>, arguments: Seq<char>|
        text == #[trigger] call_object(name, arguments) && is_plain(name) && is_nested_json(
            arguments,
        ) ==> r is Some && (json_member(r.unwrap(), "name"@) matches Some(n) && json_string(n)
            == Some(name)) && json_member(r.unwrap(), "arguments"@) == json_value(arguments)
}

/// `serde_json::from_str` into a `Value`. The result depends on the text
/// alone; where it is an error, which error is not told. An object with a string
/// and another value is read as the object with these two members: the string
/// is taken as it stands where nothing in it is escaped, and the other value is
/// the one that its own text is read as. Values can be nested 127 deep, so
/// there has to be room for one more level around the other value, as an array
/// would need it.
#[verifier::external_body]
pub(crate) fn parse_json(text: &str) -> (r: Option<Value>)
    ensures
        r == json_value(text@),
        holds_call(text@, r),
{
    serde_json::from_str::<Value>(text).ok()
}

/// The text of `serde_json::Value` by its `Display`, which is compact and the
/// same as `serde_json::to_string` gives.
#[verifier::external_body]
pub(crate) fn write_json(v: &Value) -> (r: String)
    ensures
        r@ == json_text(*v),
{
    v.to_string()
}

/// `serde_json::Value::get` with a string key: the member under that key of an
/// object, and nothing for a key that is absent or a value of another kind.
#[verifier::external_body]
pub(crate) fn member<'a>(v: &'a Value, key: &str) -> (r: Option<&'a Value>)
    ensures
        match r {
            Some(m) => json_member(*v, key@) == Some(*m),
            None => json_member(*v, key@) is None,
        },
{
    v.get(key)
}

/// `serde_json::Value::as_str`: the text of a string value, and nothing for a
/// value of another kind.
#[verifier::external_body]
pub(crate) fn string_value(v: &Value) -> (r: Option<String>)
    ensures
        match r {
            Some(s) => json_string(*v) == Some(s@),
            None => json_string(*v) is None,
        },
{
    v.as_str().map(|s| s.to_string())
}

/// The object without members, built with `serde_json::Map::new`. It is what
/// `serde_json` reads from `{}`, and how it is displayed.
#[verifier::external_body]
pub(crate) fn empty_object() -> (r: Value)
    ensures
        json_value("{}"@) == Some(r),
        json_text(r) == "{}"@,
{
    Value::Object(serde_json::Map::new())
}

/// `Value::clone` copies the whole value.
pub assume_specification[ <serde_json::Value as Clone>::clone ](v: &Value) -> (r: Value)
    ensures
        r == *v,
;

/// The object without members.
pub open spec fn empty_json() -> Value {
    json_value("{}"@).unwrap()
}

} // verus!
