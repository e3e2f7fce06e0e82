//! What the library reads of JSON values: the kind of a value and the members
//! of an object.

use vstd::prelude::*;

verus! {

/// The kind of a JSON value, with the scalar payloads the library reads.
pub enum JsonShape {
    /// An object.
    Object,
    /// A string.
    Text(String),
    /// A number that is an `i64`.
    Integer(i64),
    /// Any other number.
    OtherNumber,
    /// `null`, a boolean or an array.
    Other,
}

/// The kind of a JSON value.
///
/// Trusted wrapper over the variants of `serde_json::Value`, one arm each,
/// reading a number with `Number::as_i64`. Nothing is claimed of the result:
/// JSON values are opaque to this library.
#[verifier::external_body]
fn shape_of(value: &serde_json::Value) -> JsonShape {
    match value {
        serde_json::Value::Object(_) => JsonShape::Object,
        serde_json::Value::String(text) => JsonShape::Text(text.clone()),
        serde_json::Value::Number(number) => match number.as_i64() {
            Some(n) => JsonShape::Integer(n),
            None => JsonShape::OtherNumber,
        },
        _ => JsonShape::Other,
    }
}

/// The member `key` of a JSON object, copied out; nothing for other values.
///
/// Trusted wrapper over `serde_json::Map::get` on the object a value holds.
/// Nothing is claimed of the result: JSON values are opaque to this library.
#[verifier::external_body]
fn member_of(value: &serde_json::Value, key: &str) -> Option<serde_json::Value> {
    value.as_object().and_then(|map| map.get(key)).cloned()
}

/// `shape` is what reading the kind of `value` gives.
pub closed spec fn json_shape_result(value: serde_json::Value, shape: JsonShape) -> bool {
    call_ensures(shape_of, (&value,), shape)
}

/// `member` is what looking up the member `key` of `value` gives.
pub closed spec fn json_member_result(
    value: serde_json::Value,
    key: Seq<char>,
    member: Option<serde_json::Value>,
) -> bool {
    exists|k: &str| k@ == key && call_ensures(member_of, (&value, k), member)
}

/// The kind of a JSON value.
pub(crate) fn json_shape(value: &serde_json::Value) -> (shape: JsonShape)
    ensures
        json_shape_result(*value, shape),
{
    let read = shape_of;
    read(value)
}

/// The member `key` of a JSON object, copied out; nothing for other values.
pub(crate) fn json_member(value: &serde_json::Value, key: &str) -> (member: Option<serde_json::Value>)
    ensures
        json_member_result(*value, key@, member),
{
    let lookup = member_of;
    let member = lookup(value, key);
    assert(call_ensures(member_of, (value, key), member));
    member
}

} // verus!
