//! Trusted bindings to serde_json for the JSON bodies on the wire, together
//! with a structural model of the documents they carry. The model is what the
//! contracts of the protocol layer speak about: parsing names the model of
//! the document the bytes denote, each accessor reads it, each constructor
//! builds it, and serialization names the bytes an exactly modeled document
//! produces.

use vstd::prelude::*;

use crate::errors::ProtocolError;

verus! {

/// A structural model of a JSON document. Integer numbers carry their exact
/// mathematical value (serde_json keeps one canonical representation per
/// integer); a non-integer number is `Inexact`, which the model does not
/// distinguish further — the protocol never composes or reads one.
#[verifier::ext_equal]
pub enum JsonVal {
    Null,
    Bool(bool),
    Int(int),
    Str(Seq<char>),
    Arr(Seq<JsonVal>),
    Obj(Map<Seq<char>, JsonVal>),
    Inexact,
}

/// Whether a model determines its document completely: no `Inexact` anywhere.
/// serde_json objects are ordered maps with string keys, so two documents
/// with the same exact model serialize to the same bytes.
pub open spec fn exact_model(m: JsonVal) -> bool
    decreases m,
{
    match m {
        JsonVal::Null => true,
        JsonVal::Bool(_) => true,
        JsonVal::Int(_) => true,
        JsonVal::Str(_) => true,
        JsonVal::Arr(s) => forall|i: int| 0 <= i < s.len() ==> exact_model(#[trigger] s[i]),
        JsonVal::Obj(o) => forall|k: Seq<char>|
            o.contains_key(k) ==> exact_model(#[trigger] o[k]),
        JsonVal::Inexact => false,
    }
}

/// What a serde_json value holds.
pub uninterp spec fn json_model(v: serde_json::Value) -> JsonVal;

/// What a serde_json object map holds.
pub uninterp spec fn json_map_model(m: serde_json::Map<String, serde_json::Value>) -> Map<
    Seq<char>,
    JsonVal,
>;

/// The model of the document that serde_json's parser accepts the bytes as,
/// `None` where it rejects them; a function of the bytes alone.
pub uninterp spec fn json_parse(bytes: Seq<u8>) -> Option<JsonVal>;

/// The bytes serde_json's serializer writes for a document with the given
/// exact model; a function of the model alone, since an exact model
/// determines the document.
pub uninterp spec fn json_text(m: JsonVal) -> Seq<u8>;

#[verifier::external_type_specification]
#[verifier::external_body]
pub struct ExValue(serde_json::Value);

#[verifier::external_type_specification]
#[verifier::external_body]
#[verifier::reject_recursive_types(K)]
#[verifier::reject_recursive_types(V)]
pub struct ExJsonMap<K, V>(serde_json::Map<K, V>);

/// Relies on serde_json::from_slice::<Value>: parses one JSON document,
/// failing on anything malformed; the accepted document is a function of the
/// bytes alone.
#[verifier::external_body]
pub fn json_from_slice(bytes: &[u8]) -> (r: Result<serde_json::Value, ProtocolError>)
    ensures
        r is Ok <==> json_parse(bytes@) is Some,
        r matches Ok(v) ==> json_parse(bytes@) == Some(json_model(v)),
        r matches Err(e) ==> e == ProtocolError::Json,
{
    match serde_json::from_slice::<serde_json::Value>(bytes) {
        Ok(v) => Ok(v),
        Err(_) => Err(ProtocolError::Json),
    }
}

/// Relies on serde_json::Value::get: the member of an object under a key,
/// `None` on non-objects and absent keys.
#[verifier::external_body]
pub fn json_get<'a>(v: &'a serde_json::Value, key: &str) -> (r: Option<&'a serde_json::Value>)
    ensures
        r matches Some(w) ==> (json_model(*v) matches JsonVal::Obj(o) && o.contains_key(key@)
            && json_model(*w) == o[key@]),
        r is None ==> !(json_model(*v) matches JsonVal::Obj(o) && o.contains_key(key@)),
{
    v.get(key)
}

/// Relies on serde_json::Value::as_str: the text of a string value, `None`
/// for every other kind of value.
#[verifier::external_body]
pub fn json_as_str<'a>(v: &'a serde_json::Value) -> (r: Option<&'a str>)
    ensures
        r matches Some(s) ==> json_model(*v) == JsonVal::Str(s@),
        r is None ==> !(json_model(*v) is Str),
{
    v.as_str()
}

/// Relies on serde_json::Value::as_i64: the value of an integer number that
/// fits an i64, `None` otherwise.
#[verifier::external_body]
pub fn json_as_i64(v: &serde_json::Value) -> (r: Option<i64>)
    ensures
        r matches Some(n) ==> json_model(*v) == JsonVal::Int(n as int),
        r is None ==> !(json_model(*v) matches JsonVal::Int(n) && i64::MIN <= n <= i64::MAX),
{
    v.as_i64()
}

/// Relies on serde_json::Value::is_null.
#[verifier::external_body]
pub fn json_is_null(v: &serde_json::Value) -> (r: bool)
    ensures
        r == (json_model(*v) is Null),
{
    v.is_null()
}

/// Relies on serde_json::Map::new.
#[verifier::external_body]
pub fn json_map_new() -> (r: serde_json::Map<String, serde_json::Value>)
    ensures
        forall|k: Seq<char>| !json_map_model(r).contains_key(k),
{
    serde_json::Map::new()
}

/// Relies on serde_json::Map::insert, handing back any displaced value.
#[verifier::external_body]
pub fn json_map_insert(
    m: &mut serde_json::Map<String, serde_json::Value>,
    key: String,
    value: serde_json::Value,
) -> (r: Option<serde_json::Value>)
    ensures
        json_map_model(*final(m)) == json_map_model(*old(m)).insert(key@, json_model(value)),
        r is Some <==> json_map_model(*old(m)).contains_key(key@),
        r matches Some(d) ==> json_model(d) == json_map_model(*old(m))[key@],
{
    m.insert(key, value)
}

/// Relies on serde_json::Value::String.
#[verifier::external_body]
pub fn json_string(s: String) -> (r: serde_json::Value)
    ensures
        json_model(r) == JsonVal::Str(s@),
{
    serde_json::Value::String(s)
}

/// Relies on serde_json::Value::Bool.
#[verifier::external_body]
pub fn json_bool(b: bool) -> (r: serde_json::Value)
    ensures
        json_model(r) == JsonVal::Bool(b),
{
    serde_json::Value::Bool(b)
}

/// Relies on serde_json::Value::Null.
#[verifier::external_body]
pub fn json_null() -> (r: serde_json::Value)
    ensures
        json_model(r) == JsonVal::Null,
{
    serde_json::Value::Null
}

/// Relies on serde_json::Value::from for i64: a JSON number with that exact
/// integer value.
#[verifier::external_body]
pub fn json_i64(n: i64) -> (r: serde_json::Value)
    ensures
        json_model(r) == JsonVal::Int(n as int),
{
    serde_json::Value::from(n)
}

/// Relies on serde_json::Value::from for u64: a JSON number with that exact
/// integer value.
#[verifier::external_body]
pub fn json_u64(n: u64) -> (r: serde_json::Value)
    ensures
        json_model(r) == JsonVal::Int(n as int),
{
    serde_json::Value::from(n)
}

/// Relies on serde_json::Value::Object.
#[verifier::external_body]
pub fn json_object(m: serde_json::Map<String, serde_json::Value>) -> (r: serde_json::Value)
    ensures
        json_model(r) == JsonVal::Obj(json_map_model(m)),
{
    serde_json::Value::Object(m)
}

/// Relies on serde_json::to_vec: the UTF-8 JSON text of a value, which is a
/// function of the value, hence of its model where the model is exact; a
/// Value never fails to serialize (object keys are always strings).
#[verifier::external_body]
pub fn json_to_vec(v: &serde_json::Value) -> (r: Result<Vec<u8>, ProtocolError>)
    ensures
        exact_model(json_model(*v)) ==> r is Ok,
        r matches Ok(b) ==> (exact_model(json_model(*v)) ==> b@ == json_text(json_model(*v))),
        r matches Err(e) ==> e == ProtocolError::Json,
{
    match serde_json::to_vec(v) {
        Ok(b) => Ok(b),
        Err(_) => Err(ProtocolError::Json),
    }
}

} // verus!
