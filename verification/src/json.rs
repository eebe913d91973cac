//! The few things the provider adapters ask of `serde_json` directly: reading
//! a tool call's argument text, rendering arguments back to text, making a
//! string value, copying a value, and closing an object schema.

use vstd::prelude::*;
use vstd::string::*;

use crate::text::{owned, trim, trim_seq};

verus! {

/// What `serde_json::from_str` makes of `text` as a `Value`: `None` where the
/// text is not a JSON document.
pub uninterp spec fn json_parsed(text: Seq<char>) -> Option<serde_json::Value>;

/// The compact JSON text `serde_json` renders `value` as.
pub uninterp spec fn json_rendered(value: serde_json::Value) -> Seq<char>;

/// The JSON string value `serde_json::Value::String(text)`.
pub uninterp spec fn json_string_value(text: Seq<char>) -> serde_json::Value;


/// The message of the error `serde_json::from_str` reports for `text` when
/// it is not a JSON document.
pub uninterp spec fn json_parse_error(text: Seq<char>) -> Seq<char>;

/// `serde_json::from_str::<Value>`: the value `text` spells, or the error's
/// message where it is not JSON. The contract names both and says nothing
/// more of them.
#[verifier::external_body]
pub(crate) fn parse_json(text: &str) -> (r: Result<serde_json::Value, String>)
    ensures
        match json_parsed(text@) {
            Some(v) => r == Ok::<serde_json::Value, String>(v),
            None => r matches Err(e) && e@ == json_parse_error(text@),
        },
{
    serde_json::from_str(text).map_err(|e| e.to_string())
}

/// `serde_json::Value::String`: the string value holding `text`.
#[verifier::external_body]
pub(crate) fn json_string(text: String) -> (r: serde_json::Value)
    ensures
        r == json_string_value(text@),
{
    serde_json::Value::String(text)
}

/// `serde_json::Value::Object(Map::new())`: the empty object, which is what
/// `serde_json::from_str` reads `{}` as.
#[verifier::external_body]
pub(crate) fn empty_object() -> (r: serde_json::Value)
    ensures
        json_parsed("{}"@) == Some(r),
{
    serde_json::Value::Object(serde_json::Map::new())
}

/// `Value::to_string` (its `Display`): the compact JSON text of `value`.
#[verifier::external_body]
pub(crate) fn render_json(value: &serde_json::Value) -> (r: String)
    ensures
        r@ == json_rendered(*value),
{
    value.to_string()
}

/// `Value::clone`: a copy equal to `value`.
#[verifier::external_body]
pub(crate) fn copy_json(value: &serde_json::Value) -> (r: serde_json::Value)
    ensures
        r == *value,
{
    value.clone()
}


/// What a tool call's raw argument text stands for: blank text is the empty
/// object, JSON text the value it spells, and any other text that text as a
/// JSON string.
pub open spec fn args_parsed(raw: Seq<char>, v: serde_json::Value) -> bool {
    if trim_seq(raw).len() == 0 {
        json_parsed("{}"@) == Some(v)
    } else {
        v == match json_parsed(raw) {
            Some(p) => p,
            None => json_string_value(raw),
        }
    }
}

/// The arguments of a tool call from the text a model sent for them. Text
/// that is not JSON is kept, as a string, rather than dropped.
pub fn parse_args(raw: &str) -> (r: serde_json::Value)
    ensures
        args_parsed(raw@, r),
{
    let t = trim(raw);
    if t.as_str().unicode_len() == 0 {
        return empty_object();
    }
    match parse_json(raw) {
        Ok(v) => v,
        Err(_) => json_string(owned(raw)),
    }
}

/// The JSON object holding `fields`, a later field replacing an earlier one
/// of the same key.
pub uninterp spec fn json_object_of(fields: Seq<(Seq<char>, serde_json::Value)>) -> serde_json::Value;

/// The JSON number `n`.
pub uninterp spec fn json_u64_value(n: u64) -> serde_json::Value;

/// The JSON number `n`.
pub uninterp spec fn json_i64_value(n: i64) -> serde_json::Value;

/// The JSON boolean `b`.
pub uninterp spec fn json_bool_value(b: bool) -> serde_json::Value;

/// The JSON null, which is what `serde_json::from_str` reads `null` as.
pub open spec fn json_null_value() -> serde_json::Value {
    json_parsed("null"@).unwrap()
}

/// `value` with `key` set to `field` when it is an object; any other value
/// as it is.
pub uninterp spec fn json_inserted(value: serde_json::Value, key: Seq<char>, field: serde_json::Value) -> serde_json::Value;

pub open spec fn field_views(fields: Seq<(String, serde_json::Value)>) -> Seq<(Seq<char>, serde_json::Value)> {
    fields.map_values(|f: (String, serde_json::Value)| (f.0@, f.1))
}

/// `serde_json::Value::Object` of the fields, collected into a `Map` in
/// order.
#[verifier::external_body]
pub(crate) fn json_object(fields: Vec<(String, serde_json::Value)>) -> (r: serde_json::Value)
    ensures
        r == json_object_of(field_views(fields@)),
{
    serde_json::Value::Object(fields.into_iter().collect())
}

/// `serde_json::Value::from(u64)`: a JSON number.
#[verifier::external_body]
pub(crate) fn json_u64(n: u64) -> (r: serde_json::Value)
    ensures
        r == json_u64_value(n),
{
    serde_json::Value::from(n)
}

/// `serde_json::Value::from(i64)`: a JSON number.
#[verifier::external_body]
pub(crate) fn json_i64(n: i64) -> (r: serde_json::Value)
    ensures
        r == json_i64_value(n),
{
    serde_json::Value::from(n)
}

/// `serde_json::Value::Bool`.
#[verifier::external_body]
pub(crate) fn json_bool(b: bool) -> (r: serde_json::Value)
    ensures
        r == json_bool_value(b),
{
    serde_json::Value::Bool(b)
}

/// `serde_json::Value::Null`, which is what `serde_json::from_str` reads
/// `null` as.
#[verifier::external_body]
pub(crate) fn json_null() -> (r: serde_json::Value)
    ensures
        json_parsed("null"@) == Some(r),
{
    serde_json::Value::Null
}

/// `Value::as_object_mut` then `Map::insert(key, field)`: sets a field of an
/// object; a value that is not an object comes back unchanged.
#[verifier::external_body]
pub(crate) fn json_insert(value: serde_json::Value, key: String, field: serde_json::Value) -> (r:
    serde_json::Value)
    ensures
        r == json_inserted(value, key@, field),
{
    let mut value = value;
    if let Some(map) = value.as_object_mut() {
        map.insert(key, field);
    }
    value
}

/// The entries of `value` when it is an object, in the order its map holds
/// them; `None` for any other value.
pub uninterp spec fn json_entries_of(value: serde_json::Value) -> Option<Seq<(Seq<char>, serde_json::Value)>>;

/// The text of `value` when it is a JSON string; `None` for any other value.
pub uninterp spec fn json_text_of(value: serde_json::Value) -> Option<Seq<char>>;

/// `Value::as_object`, with the map's entries copied out in its order. A map
/// holds each key once.
#[verifier::external_body]
pub(crate) fn json_entries(value: &serde_json::Value) -> (r: Option<Vec<(String, serde_json::Value)>>)
    ensures
        match json_entries_of(*value) {
            Some(es) => r matches Some(v) && field_views(v@) == es,
            None => r is None,
        },
        r matches Some(v) ==> forall|i: int, j: int|
            0 <= i < j < v@.len() ==> #[trigger] v@[i].0@ != #[trigger] v@[j].0@,
{
    value.as_object().map(|m| m.iter().map(|(k, v)| (k.clone(), v.clone())).collect())
}

/// `Value::as_str`, copied out.
#[verifier::external_body]
pub(crate) fn json_text(value: &serde_json::Value) -> (r: Option<String>)
    ensures
        match json_text_of(*value) {
            Some(t) => r matches Some(s) && s@ == t,
            None => r is None,
        },
{
    value.as_str().map(|s| s.to_string())
}

} // verus!
