//! JSON values as the library reads them, and the parser that produces them.
//!
//! Parsing is done by `serde_json`; the parsed tree is moved into the
//! library's own `JsonValue` so that verified code can read it.

use vstd::prelude::*;

verus! {

/// A parsed JSON value.
#[derive(Debug)]
pub enum JsonValue {
    Null,
    Bool(bool),
    /// A number, kept as its value as an `i64` when it is an integer in that
    /// range (`serde_json::Number::as_i64`), and `None` otherwise.
    Number(Option<i64>),
    Str(String),
    Array(Vec<JsonValue>),
    /// The members of an object, one per key.
    Object(Vec<(String, JsonValue)>),
}

#[verifier::external_type_specification]
#[verifier::external_body]
pub struct ExSerdeJsonValue(serde_json::Value);

/// What `serde_json` parses a text into, moved into `JsonValue`; `None` when
/// the text is not valid JSON.
pub uninterp spec fn json_parse(text: Seq<char>) -> Option<JsonValue>;

/// Trusted: `serde_json::from_str::<serde_json::Value>`. The parsed tree is
/// named by `json_parse` and not described; the error message is left unsaid.
#[verifier::external_body]
pub(crate) fn parse_json(text: &str) -> (r: Result<JsonValue, String>)
    ensures
        r is Ok <==> json_parse(text@) is Some,
        r matches Ok(v) ==> json_parse(text@) == Some(v),
{
    match serde_json::from_str::<serde_json::Value>(text) {
        Ok(v) => Ok(from_serde(v)),
        Err(e) => Err(e.to_string()),
    }
}

/// Trusted: moves a `serde_json::Value` into `JsonValue`, variant for variant;
/// numbers keep `serde_json::Number::as_i64`.
#[verifier::external_body]
pub(crate) fn from_serde(v: serde_json::Value) -> JsonValue {
    match v {
        serde_json::Value::Null => JsonValue::Null,
        serde_json::Value::Bool(b) => JsonValue::Bool(b),
        serde_json::Value::Number(n) => JsonValue::Number(n.as_i64()),
        serde_json::Value::String(s) => JsonValue::Str(s),
        serde_json::Value::Array(a) => JsonValue::Array(a.into_iter().map(from_serde).collect()),
        serde_json::Value::Object(m) => JsonValue::Object(
            m.into_iter().map(|(k, x)| (k, from_serde(x))).collect(),
        ),
    }
}

/// The value of the first member named `key`.
pub open spec fn member_lookup(members: Seq<(String, JsonValue)>, key: Seq<char>) -> Option<JsonValue>
    decreases members.len(),
{
    if members.len() == 0 {
        None
    } else if members[0].0@ == key {
        Some(members[0].1)
    } else {
        member_lookup(members.drop_first(), key)
    }
}

/// `v[key]` when `v` is an object holding `key`.
pub open spec fn field_lookup(v: JsonValue, key: Seq<char>) -> Option<JsonValue> {
    match v {
        JsonValue::Object(members) => member_lookup(members@, key),
        _ => None,
    }
}

/// `v[key]`: the member named `key`, or `Null` when `v` is not an object or
/// has no such member.
pub open spec fn json_index(v: JsonValue, key: Seq<char>) -> JsonValue {
    match field_lookup(v, key) {
        Some(x) => x,
        None => JsonValue::Null,
    }
}

/// `v.as_str()`, by its characters.
pub open spec fn str_view(v: JsonValue) -> Option<Seq<char>> {
    match v {
        JsonValue::Str(s) => Some(s@),
        _ => None,
    }
}

/// `v.as_array().unwrap_or(&vec![])`.
pub open spec fn array_items(v: JsonValue) -> Seq<JsonValue> {
    match v {
        JsonValue::Array(a) => a@,
        _ => seq![],
    }
}

/// `v.as_i64()`.
pub open spec fn i64_view(v: JsonValue) -> Option<i64> {
    match v {
        JsonValue::Number(n) => n,
        _ => None,
    }
}

/// The member named `key`, if `v` is an object holding it.
pub fn json_get<'a>(v: &'a JsonValue, key: &str) -> (r: Option<&'a JsonValue>)
    ensures
        r matches Some(x) ==> field_lookup(*v, key@) == Some(*x),
        r is None ==> field_lookup(*v, key@) is None,
{
    match v {
        JsonValue::Object(members) => {
            let mut i: usize = 0;
            assert(members@.skip(0) =~= members@);
            while i < members.len()
                invariant
                    i <= members.len(),
                    field_lookup(*v, key@) == member_lookup(members@, key@),
                    member_lookup(members@, key@) == member_lookup(members@.skip(i as int), key@),
                decreases members.len() - i,
            {
                assert(members@.skip(i as int).drop_first() =~= members@.skip(i + 1));
                assert(members@.skip(i as int)[0] == members@[i as int]);
                if crate::text::str_equal(members[i].0.as_str(), key) {
                    return Some(&members[i].1);
                }
                i += 1;
            }
            None
        },
        _ => None,
    }
}

/// `v.as_str()`.
pub fn json_as_str(v: &JsonValue) -> (r: Option<&String>)
    ensures
        r matches Some(s) ==> str_view(*v) == Some(s@),
        r is None ==> str_view(*v) is None,
{
    match v {
        JsonValue::Str(s) => Some(s),
        _ => None,
    }
}

/// `v[key].as_str()`.
pub fn json_str_field<'a>(v: &'a JsonValue, key: &str) -> (r: Option<&'a String>)
    ensures
        r matches Some(s) ==> str_view(json_index(*v, key@)) == Some(s@),
        r is None ==> str_view(json_index(*v, key@)) is None,
{
    match json_get(v, key) {
        Some(x) => json_as_str(x),
        None => None,
    }
}

/// The items of `v[key]` when it is an array, and none otherwise.
pub fn json_array_field<'a>(v: &'a JsonValue, key: &str) -> (r: Option<&'a Vec<JsonValue>>)
    ensures
        r matches Some(a) ==> array_items(json_index(*v, key@)) == a@,
        r is None ==> array_items(json_index(*v, key@)) == Seq::<JsonValue>::empty(),
{
    match json_get(v, key) {
        Some(x) => match x {
            JsonValue::Array(a) => Some(a),
            _ => None,
        },
        None => None,
    }
}

/// `v[key].as_i64()`.
pub fn json_i64_field(v: &JsonValue, key: &str) -> (r: Option<i64>)
    ensures
        r == i64_view(json_index(*v, key@)),
{
    match json_get(v, key) {
        Some(x) => match x {
            JsonValue::Number(n) => *n,
            _ => None,
        },
        None => None,
    }
}

} // verus!
