//! The payload of a token: a JSON object, held as `serde_json` holds it and
//! read and filled one named field at a time.

use vstd::prelude::*;

verus! {

/// A JSON value of `serde_json`.
#[verifier::external_type_specification]
#[verifier::external_body]
pub struct ExJsonValue(serde_json::Value);

/// A JSON object of `serde_json`.
#[verifier::external_type_specification]
#[verifier::external_body]
#[verifier::reject_recursive_types(K)]
#[verifier::reject_recursive_types(V)]
pub struct ExJsonObject<K, V>(serde_json::Map<K, V>);

/// A JSON object with text keys, the form in which a payload is held.
pub type JsonObject = serde_json::Map<String, serde_json::Value>;

/// What a field of a payload holds, as far as this library reads it.
pub enum JsonField {
    /// A JSON number that is an integer within `i64`.
    Int(i64),
    /// A JSON string.
    Text(Seq<char>),
    /// A JSON array all of whose items are strings.
    TextList(Seq<Seq<char>>),
    /// Any other JSON value.
    Other,
}

/// A value that this library writes into a payload or reads from one.
#[derive(Debug, Clone, PartialEq, Eq)]
pub enum ClaimValue {
    Int(i64),
    Text(String),
    TextList(Vec<String>),
}

/// The texts that a list of strings holds.
pub open spec fn texts(list: Seq<String>) -> Seq<Seq<char>> {
    Seq::new(list.len(), |i: int| list[i]@)
}

impl View for ClaimValue {
    type V = JsonField;

    open spec fn view(&self) -> JsonField {
        match self {
            ClaimValue::Int(i) => JsonField::Int(*i),
            ClaimValue::Text(s) => JsonField::Text(s@),
            ClaimValue::TextList(l) => JsonField::TextList(texts(l@)),
        }
    }
}

/// The fields of a JSON object: each key with what its value holds.
pub uninterp spec fn object_fields(object: JsonObject) -> Map<Seq<char>, JsonField>;

/// No field holds a value of a kind that this library does not read.
pub open spec fn all_plain(fields: Map<Seq<char>, JsonField>) -> bool {
    forall|k: Seq<char>| fields.dom().contains(k) ==> !(#[trigger] fields[k] is Other)
}

/// Calls `serde_json::Map::new`, which makes an object without fields.
#[verifier::external_body]
pub(crate) fn new_object() -> (r: JsonObject)
    ensures
        forall|k: Seq<char>| !object_fields(r).dom().contains(k),
{
    serde_json::Map::new()
}

/// Calls `serde_json::Map::insert` with the value turned into a
/// `serde_json::Value` of the same kind. The object then holds the value
/// under the key, in place of what it held there, and its other fields are
/// unchanged.
#[verifier::external_body]
pub(crate) fn put(object: &mut JsonObject, key: &str, value: ClaimValue)
    ensures
        object_fields(*final(object)) == object_fields(*old(object)).insert(key@, value@),
{
    let json = match value {
        ClaimValue::Int(i) => serde_json::Value::from(i),
        ClaimValue::Text(s) => serde_json::Value::from(s),
        ClaimValue::TextList(l) => serde_json::Value::from(l),
    };
    object.insert(key.to_string(), json);
}

/// Calls `serde_json::Map::get` and copies the value out: a number that
/// `as_i64` gives, a string, or an array of strings. An absent key, and a
/// value of any other kind, give `None`.
#[verifier::external_body]
pub(crate) fn get(object: &JsonObject, key: &str) -> (r: Option<ClaimValue>)
    ensures
        match r {
            Some(v) => object_fields(*object).dom().contains(key@) && object_fields(*object)[key@]
                == v@,
            None => !object_fields(*object).dom().contains(key@) || object_fields(
                *object,
            )[key@] is Other,
        },
{
    match object.get(key) {
        Some(serde_json::Value::Number(n)) => n.as_i64().map(ClaimValue::Int),
        Some(serde_json::Value::String(s)) => Some(ClaimValue::Text(s.clone())),
        Some(serde_json::Value::Array(a)) => a.iter().map(|v| v.as_str().map(String::from))
            .collect::<Option<Vec<String>>>().map(ClaimValue::TextList),
        _ => None,
    }
}

} // verus!
