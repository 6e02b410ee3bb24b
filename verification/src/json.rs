//! The trusted boundary to the JSON parser. Raw translation documents are
//! handed to `serde_json` and come back reshaped as [`TransValue`] trees; the
//! parse result is named, not restated, since it is a pure function of the
//! input text.

use vstd::prelude::*;
use crate::value::TransValue;

verus! {

/// `serde_json::Value`, declared so the conversion out of the parser can name
/// it. The library never reads into such a value; it only reshapes it.
#[verifier::external_type_specification]
#[verifier::external_body]
pub struct ExValue(serde_json::Value);

/// What parsing `text` yields, reshaped as the library's value type: `None`
/// exactly when the text is not a well-formed document. Parsing is a pure
/// function of the text, so the name is sound; nothing more is assumed of it.
pub uninterp spec fn parsed_document(text: Seq<char>) -> Option<TransValue>;

/// Relies on `serde_json::from_str::<Value>`: it parses the text alone, with
/// no other input, and succeeds exactly on well-formed JSON. The parsed value
/// is reshaped by `node_of_json` and a parse error keeps its message.
#[verifier::external_body]
pub(crate) fn parse_document(text: &str) -> (r: Result<TransValue, String>)
    ensures
        r matches Ok(v) ==> parsed_document(text@) == Some(v),
        r is Ok <==> parsed_document(text@) is Some,
{
    match serde_json::from_str::<serde_json::Value>(text) {
        Ok(v) => Ok(node_of_json(&v)),
        Err(e) => Err(e.to_string()),
    }
}

/// Relies on `serde_json::Value`: one arm per variant, moving fields only. A
/// JSON string moves in verbatim; an object keeps its rendering (`Value`'s
/// `Display`, compact JSON) and each of its fields in iteration order; every
/// other value keeps its rendering alone. The recursion is bounded by the
/// parser's nesting limit.
#[verifier::external_body]
fn node_of_json(v: &serde_json::Value) -> TransValue {
    match v {
        serde_json::Value::String(s) => TransValue::Text(s.clone()),
        serde_json::Value::Object(m) => TransValue::Object(
            v.to_string(),
            m.iter().map(|(k, x)| (k.clone(), node_of_json(x))).collect(),
        ),
        _ => TransValue::Rendered(v.to_string()),
    }
}

} // verus!
