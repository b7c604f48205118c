//! JSON text transport for the wire value model: parsing a payload text
//! into a wire value and serializing a wire value back to text, through
//! serde_json.

use std::str::FromStr;

use vstd::prelude::*;

use crate::entry::ScimEntry;
use crate::error::ScimError;
use crate::wire::WireValue;

verus! {

/// Declaration of serde_json's value type, so that the conversion
/// wrappers below can mention it; the type stays opaque.
#[verifier::external_type_specification]
#[verifier::external_body]
pub struct ExValue(serde_json::Value);

/// Relies on the shape of `serde_json::Value`: the conversion moves each
/// variant across one for one, carrying a number as its decimal text via
/// `Number`'s `Display` form.
#[verifier::external_body]
fn value_to_wire(v: serde_json::Value) -> WireValue {
    match v {
        serde_json::Value::Null => WireValue::Null,
        serde_json::Value::Bool(b) => WireValue::Bool(b),
        serde_json::Value::Number(n) => WireValue::Number(n.to_string()),
        serde_json::Value::String(s) => WireValue::Str(s),
        serde_json::Value::Array(a) => WireValue::Array(
            a.into_iter().map(value_to_wire).collect(),
        ),
        serde_json::Value::Object(m) => WireValue::Object(
            m.into_iter().map(|(k, w)| (k, value_to_wire(w))).collect(),
        ),
    }
}

/// Relies on `serde_json::from_str` and on `serde_json::Map` being an
/// ordered map with unique keys: a parsed payload converts to a
/// well-formed wire value.
#[verifier::external_body]
pub fn wire_from_json_text(s: &str) -> (r: Option<WireValue>)
    ensures
        match r {
            Some(v) => v.wf(),
            None => true,
        },
{
    serde_json::from_str::<serde_json::Value>(s).ok().map(value_to_wire)
}

/// Relies on the shape of `serde_json::Value`: the conversion moves each
/// variant across one for one. A number text that `serde_json::Number`
/// does not accept is carried as a string instead of stopping the
/// serialization; numbers that came in through a parsed payload always
/// reparse.
#[verifier::external_body]
fn wire_to_value(v: WireValue) -> serde_json::Value {
    match v {
        WireValue::Null => serde_json::Value::Null,
        WireValue::Bool(b) => serde_json::Value::Bool(b),
        WireValue::Number(n) => serde_json::Number::from_str(n.as_str()).map(
            serde_json::Value::Number).unwrap_or(serde_json::Value::String(n)),
        WireValue::Str(s) => serde_json::Value::String(s),
        WireValue::Array(a) => serde_json::Value::Array(
            a.into_iter().map(wire_to_value).collect(),
        ),
        WireValue::Object(m) => serde_json::Value::Object(
            m.into_iter().map(|(k, w)| (k, wire_to_value(w))).collect(),
        ),
    }
}

/// Relies on `serde_json::to_string`: serialization of a value built of
/// strings, booleans, numbers, arrays and string-keyed objects does not
/// fail.
#[verifier::external_body]
pub fn wire_to_json_text(v: WireValue) -> String {
    serde_json::to_string(&wire_to_value(v)).unwrap_or_default()
}

/// Parse a JSON payload text as a generic resource record: text that is
/// not JSON is rejected as `InvalidAttribute`, and the rest goes through
/// the verified wire decode.
pub fn entry_from_json_text(s: &str) -> (r: Result<ScimEntry, ScimError>)
    ensures
        match r {
            Ok(en) => en.wf(),
            Err(_) => true,
        },
{
    match wire_from_json_text(s) {
        Some(v) => ScimEntry::try_from_wire(v),
        None => Err(ScimError::InvalidAttribute),
    }
}

/// Serialize a generic resource record to JSON text, through the verified
/// wire encode.
pub fn entry_to_json_text(e: ScimEntry) -> String {
    wire_to_json_text(e.into_wire())
}

} // verus!
