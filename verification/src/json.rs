//! JSON documents as plain values: what `serde_json` parses a text into.
use vstd::prelude::*;

verus! {

#[verifier::external_type_specification]
#[verifier::external_body]
pub struct ExSerdeJsonValue(serde_json::Value);

/// A parsed JSON value.  Numbers are told apart only as far as the logic
/// needs: an integer that fits in `i64`, or any other number.
#[derive(Debug)]
pub enum JsonValue {
    Null,
    Bool(bool),
    Int(i64),
    OtherNumber,
    Str(String),
    Array(Vec<JsonValue>),
    /// The members of an object, in the order `serde_json` keeps them.
    Object(Vec<(String, JsonValue)>),
}

/// Abstract form of a [`JsonValue`].
pub enum JsonValueView {
    Null,
    Bool(bool),
    Int(i64),
    OtherNumber,
    Str(Seq<char>),
    Array(Seq<JsonValueView>),
    Object(Seq<(Seq<char>, JsonValueView)>),
}

/// The abstract form of a JSON value.
pub open spec fn json_view(v: JsonValue) -> JsonValueView
    decreases v,
{
    match v {
        JsonValue::Null => JsonValueView::Null,
        JsonValue::Bool(b) => JsonValueView::Bool(b),
        JsonValue::Int(i) => JsonValueView::Int(i),
        JsonValue::OtherNumber => JsonValueView::OtherNumber,
        JsonValue::Str(s) => JsonValueView::Str(s@),
        JsonValue::Array(a) => JsonValueView::Array(
            Seq::new(a@.len(), |i: int| if 0 <= i < a@.len() { json_view(a@[i]) } else { JsonValueView::Null }),
        ),
        JsonValue::Object(o) => JsonValueView::Object(
            Seq::new(
                o@.len(),
                |i: int|
                    if 0 <= i < o@.len() {
                        (o@[i].0@, json_view(o@[i].1))
                    } else {
                        (Seq::empty(), JsonValueView::Null)
                    },
            ),
        ),
    }
}

/// The abstract form of an optional JSON value.
pub open spec fn opt_json_view(v: Option<JsonValue>) -> Option<JsonValueView> {
    match v {
        Some(j) => Some(json_view(j)),
        None => None,
    }
}

/// What `serde_json::from_str::<serde_json::Value>` gives for a text: the
/// document, or nothing when the text is not one JSON document.
pub uninterp spec fn json_parse(raw: Seq<char>) -> Option<JsonValueView>;

/// Converts a `serde_json` value into a [`JsonValue`], one node for one node:
/// each variant becomes the variant of the same name, a number becomes
/// `Int` when `as_i64` gives it and `OtherNumber` otherwise, and the
/// members of arrays and objects keep their order.
#[verifier::external_body]
fn from_serde(v: serde_json::Value) -> JsonValue {
    match v {
        serde_json::Value::Null => JsonValue::Null,
        serde_json::Value::Bool(b) => JsonValue::Bool(b),
        serde_json::Value::Number(n) => n.as_i64().map_or(JsonValue::OtherNumber, JsonValue::Int),
        serde_json::Value::String(s) => JsonValue::Str(s),
        serde_json::Value::Array(a) => JsonValue::Array(a.into_iter().map(from_serde).collect()),
        serde_json::Value::Object(m) => JsonValue::Object(m.into_iter().map(|(k, x)| (k, from_serde(x))).collect()),
    }
}

/// `serde_json::from_str` into a `serde_json::Value`, converted node for
/// node into a [`JsonValue`]; `None` when the text is not a JSON document.
/// The result depends on the text alone and is named, not described.
#[verifier::external_body]
pub fn parse_json(raw: &str) -> (r: Option<JsonValue>)
    ensures
        opt_json_view(r) == json_parse(raw@),
{
    serde_json::from_str::<serde_json::Value>(raw).ok().map(from_serde)
}

} // verus!
