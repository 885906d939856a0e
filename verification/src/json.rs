//! JSON documents through serde_json: what a settings file parses to, and the objects that
//! are written back.
use vstd::prelude::*;

verus! {

/// `serde_json::Value`, carried through opaquely.
#[verifier::external_type_specification]
#[verifier::external_body]
pub struct ExJsonValue(serde_json::Value);

/// `serde_json::Map`, the JSON object type.
#[verifier::external_type_specification]
#[verifier::external_body]
#[verifier::reject_recursive_types(K)]
#[verifier::reject_recursive_types(V)]
pub struct ExJsonMap<K, V>(serde_json::Map<K, V>);

/// A JSON object.
pub type JsonObject = serde_json::Map<String, serde_json::Value>;

/// What a JSON object holds: each key, with the compact JSON text of its value (what
/// `serde_json::to_string` writes for it).
pub uninterp spec fn json_object_fields(m: JsonObject) -> Map<Seq<char>, Seq<char>>;

/// The compact JSON text of a JSON string holding `s` (`serde_json::to_string` of
/// `Value::String(s)`): `s` quoted, with JSON escapes.
pub uninterp spec fn json_string_text(s: Seq<char>) -> Seq<char>;

/// The pretty-printed text of a JSON object.
pub uninterp spec fn json_object_text(m: JsonObject) -> Seq<char>;

/// The top of a parsed JSON document, as far as a settings edit needs it: `null`, an
/// object, or any other value.
pub enum JsonDocument {
    Null,
    Object(JsonObject),
    Other,
}

/// The shape of a parsed document, with an object's fields.
pub enum JsonShape {
    Null,
    Object(Map<Seq<char>, Seq<char>>),
    Other,
}

impl JsonDocument {
    /// The document's shape.
    pub open spec fn shape(self) -> JsonShape {
        match self {
            JsonDocument::Null => JsonShape::Null,
            JsonDocument::Object(m) => JsonShape::Object(json_object_fields(m)),
            JsonDocument::Other => JsonShape::Other,
        }
    }
}

/// What serde_json makes of a text: the shape of the document, or its error message.
pub uninterp spec fn parsed_json(text: Seq<char>) -> Result<JsonShape, Seq<char>>;

/// A parse that gives a document of this shape.
pub open spec fn parse_ok(shape: JsonShape) -> Result<JsonShape, Seq<char>> {
    Ok(shape)
}

/// A parse that fails with this message.
pub open spec fn parse_err(msg: Seq<char>) -> Result<JsonShape, Seq<char>> {
    Err(msg)
}

/// The fields of an empty object.
pub open spec fn no_fields() -> Map<Seq<char>, Seq<char>> {
    Map::empty()
}

/// `serde_json::from_str::<serde_json::Value>`, with the value told apart by variant and the
/// error rendered with `to_string`. The outcome is named `parsed_json` of the text; what
/// that is on a given text is not stated.
#[verifier::external_body]
pub(crate) fn parse_json(text: &str) -> (r: Result<JsonDocument, String>)
    ensures
        r matches Ok(d) ==> parsed_json(text@) == parse_ok(d.shape()),
        r matches Err(m) ==> parsed_json(text@) == parse_err(m@),
{
    match serde_json::from_str::<serde_json::Value>(text) {
        Ok(serde_json::Value::Null) => Ok(JsonDocument::Null),
        Ok(serde_json::Value::Object(m)) => Ok(JsonDocument::Object(m)),
        Ok(serde_json::Value::Bool(_)) => Ok(JsonDocument::Other),
        Ok(serde_json::Value::Number(_)) => Ok(JsonDocument::Other),
        Ok(serde_json::Value::String(_)) => Ok(JsonDocument::Other),
        Ok(serde_json::Value::Array(_)) => Ok(JsonDocument::Other),
        Err(e) => Err(e.to_string()),
    }
}

/// `serde_json::Map::new`: an empty object.
#[verifier::external_body]
pub(crate) fn new_json_object() -> (m: JsonObject)
    ensures
        json_object_fields(m) == no_fields(),
{
    serde_json::Map::new()
}

/// `serde_json::Map::insert` of a JSON string: the key now maps to that string (whose text
/// is named `json_string_text`), and every other key keeps its value.
#[verifier::external_body]
pub(crate) fn json_object_insert_string(
    m: &mut JsonObject,
    key: &str,
    value: &str,
)
    ensures
        json_object_fields(*final(m)) == json_object_fields(*old(m)).insert(
            key@,
            json_string_text(value@),
        ),
{
    m.insert(key.to_string(), serde_json::Value::String(value.to_string()));
}

/// `serde_json::to_string_pretty` of an object, with the error rendered with `to_string`.
/// It succeeds: serde_json fails only where a `Serialize` impl fails or a map key is not a
/// string, and a `Map<String, Value>` has neither. The text is named `json_object_text` of
/// the object.
#[verifier::external_body]
pub(crate) fn json_object_pretty(m: &JsonObject) -> (r: Result<
    String,
    String,
>)
    ensures
        r is Ok,
        r matches Ok(s) ==> s@ == json_object_text(*m),
{
    serde_json::to_string_pretty(m).map_err(|e| e.to_string())
}

} // verus!
