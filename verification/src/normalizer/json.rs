//! Text decoding and JSON, done by `std` and by the `serde_json` crate.

use crate::types::{fields_view, FieldValue, FieldView};
use vstd::prelude::*;
use vstd::utf8::{decode_utf8, valid_utf8};

verus! {

/// The text that bytes decode to as UTF-8, with every malformed sequence
/// replaced by the replacement character, as `String::from_utf8_lossy`
/// gives it.
pub uninterp spec fn lossy_decode(bytes: Seq<u8>) -> Seq<char>;

/// The members of the JSON object that a text holds, as `serde_json` reads
/// it: key and value of each member, in the order of the keys. Strings,
/// booleans and `null` stand as they are, numbers by their text, arrays and
/// objects by their compact JSON text. `None` for a text that is no JSON
/// object.
pub uninterp spec fn json_members(text: Seq<char>) -> Option<Seq<(Seq<char>, FieldView)>>;

/// The content of an optional list of fields.
pub open spec fn opt_fields_view(r: Option<Vec<(String, FieldValue)>>) -> Option<
    Seq<(Seq<char>, FieldView)>,
> {
    match r {
        Some(v) => Some(fields_view(v@)),
        None => None,
    }
}

/// Decodes bytes as UTF-8, replacing what is malformed.
///
/// Trusted: calls `String::from_utf8_lossy`, which gives valid UTF-8 back
/// unchanged and puts U+FFFD in place of each malformed sequence.
#[verifier::external_body]
pub(crate) fn lossy_text(bytes: &[u8]) -> (r: String)
    ensures
        r@ == lossy_decode(bytes@),
        valid_utf8(bytes@) ==> r@ == decode_utf8(bytes@),
{
    String::from_utf8_lossy(bytes).into_owned()
}

/// Reads a text as a JSON object and hands out its members.
///
/// Trusted: calls `serde_json::from_str` for a `serde_json::Value`, which
/// fails on anything but one JSON value, and keeps the result only if it is
/// an object. Numbers and nested values are turned into text by their
/// `Display`. The result depends on the text alone.
#[verifier::external_body]
pub(crate) fn parse_json_object(text: &str) -> (r: Option<Vec<(String, FieldValue)>>)
    ensures
        opt_fields_view(r) == json_members(text@),
{
    match serde_json::from_str::<serde_json::Value>(text) {
        Ok(serde_json::Value::Object(map)) => Some(
            map.into_iter().map(|(k, v)| (k, match v {
                serde_json::Value::Null => FieldValue::Null,
                serde_json::Value::Bool(b) => FieldValue::Bool(b),
                serde_json::Value::Number(n) => FieldValue::Number(n.to_string()),
                serde_json::Value::String(s) => FieldValue::Text(s),
                nested => FieldValue::Nested(nested.to_string()),
            })).collect(),
        ),
        _ => None,
    }
}

} // verus!
