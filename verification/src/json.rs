//! The trusted boundary to serde_json. JSON documents other than the
//! envelope (params, results, error payloads, input schemas) are opaque
//! structured values carried through the library; only these wrappers touch
//! them, and each wrapper makes exactly one serde_json call.
//!
//! Each observation or construction serde_json performs is a pure function
//! of its argument, so it gets an uninterpreted name below, and every
//! wrapper's contract is exact over those names: what a document's member
//! is, what it is as an integer, text or array, what text it serializes
//! to, and which document a string, map or object constructor yields.

use vstd::prelude::*;

verus! {

#[verifier::external_type_specification]
#[verifier::external_body]
pub struct ExValue(serde_json::Value);

#[verifier::external_type_specification]
#[verifier::external_body]
#[verifier::reject_recursive_types(K)]
#[verifier::reject_recursive_types(V)]
pub struct ExMap<K, V>(serde_json::Map<K, V>);

/// The document this text parses to, or None when it is not JSON.
pub uninterp spec fn parsed_of(s: Seq<char>) -> Option<serde_json::Value>;

/// The member of this document under this key, or None when absent or the
/// document is not an object.
pub uninterp spec fn field_of(v: serde_json::Value, key: Seq<char>) -> Option<serde_json::Value>;

/// The document as an unsigned integer, when it is one.
pub uninterp spec fn u64_of(v: serde_json::Value) -> Option<u64>;

/// The document's text, when it is a JSON string.
pub uninterp spec fn text_content_of(v: serde_json::Value) -> Option<Seq<char>>;

/// The document's elements, when it is a JSON array.
pub uninterp spec fn array_of(v: serde_json::Value) -> Option<Seq<serde_json::Value>>;

/// The compact one-line text this document serializes to.
pub uninterp spec fn text_of(v: serde_json::Value) -> Seq<char>;

/// The JSON string holding exactly this text.
pub uninterp spec fn string_of(s: Seq<char>) -> serde_json::Value;

/// What a JSON object under construction holds: its members, keyed by
/// member name.
pub uninterp spec fn map_model(m: serde_json::Map<String, serde_json::Value>) -> Map<
    Seq<char>,
    serde_json::Value,
>;

/// The JSON object holding exactly these members.
pub uninterp spec fn object_of(m: Map<Seq<char>, serde_json::Value>) -> serde_json::Value;

/// Relies on serde_json::from_str::<Value>: parses the text as one JSON
/// document; a parse error (including exceeding the recursion limit) is an
/// `Err`, collapsed to None, never a panic.
#[verifier::external_body]
pub(crate) fn parse_value(s: &str) -> (r: Option<serde_json::Value>)
    ensures
        r == parsed_of(s@),
{
    serde_json::from_str(s).ok()
}

/// Relies on serde_json::Value::get: the member of a JSON object under
/// this key, or None when absent or not an object.
#[verifier::external_body]
pub(crate) fn get_field<'a>(v: &'a serde_json::Value, key: &str) -> (r: Option<
    &'a serde_json::Value,
>)
    ensures
        r matches Some(f) ==> field_of(*v, key@) == Some(*f),
        r is None ==> field_of(*v, key@) is None,
{
    v.get(key)
}

/// Relies on serde_json::Value::as_u64: the value as an unsigned integer,
/// when it is one.
#[verifier::external_body]
pub(crate) fn as_u64(v: &serde_json::Value) -> (r: Option<u64>)
    ensures
        r == u64_of(*v),
{
    v.as_u64()
}

/// Relies on serde_json::Value::as_str: the value as text, when it is a
/// JSON string.
#[verifier::external_body]
pub(crate) fn as_text<'a>(v: &'a serde_json::Value) -> (r: Option<&'a str>)
    ensures
        r matches Some(s) ==> text_content_of(*v) == Some(s@),
        r is None ==> text_content_of(*v) is None,
{
    v.as_str()
}

/// Relies on serde_json::Value::as_array: the value's elements, when it is
/// a JSON array.
#[verifier::external_body]
pub(crate) fn as_array<'a>(v: &'a serde_json::Value) -> (r: Option<&'a Vec<serde_json::Value>>)
    ensures
        r matches Some(a) ==> array_of(*v) == Some(a@),
        r is None ==> array_of(*v) is None,
{
    v.as_array()
}

/// Relies on the derived Clone of serde_json::Value, which reproduces the
/// whole document.
#[verifier::external_body]
pub(crate) fn clone_value(v: &serde_json::Value) -> (r: serde_json::Value)
    ensures
        r == *v,
{
    v.clone()
}

/// Relies on serde_json::to_string: the document's compact one-line text.
/// Serializing a `Value` into an in-memory buffer has no failure path (its
/// maps are keyed by strings and its numbers are always finite), and the
/// compact form escapes every control character inside strings, so the
/// text never contains a raw newline.
#[verifier::external_body]
pub(crate) fn to_compact_text(v: &serde_json::Value) -> (r: String)
    ensures
        r@ == text_of(*v),
        forall|i: int| 0 <= i < r@.len() ==> r@[i] != '\n',
{
    serde_json::to_string(v).unwrap_or_default()
}

/// Relies on serde_json::Map::new: the empty JSON object.
#[verifier::external_body]
pub(crate) fn map_new() -> (r: serde_json::Map<String, serde_json::Value>)
    ensures
        forall|k: Seq<char>| !map_model(r).dom().contains(k),
{
    serde_json::Map::new()
}

/// Relies on serde_json::Map::insert: binds the key to the value; a
/// previous binding is discarded.
#[verifier::external_body]
pub(crate) fn map_insert(
    m: &mut serde_json::Map<String, serde_json::Value>,
    k: String,
    v: serde_json::Value,
)
    ensures
        map_model(*final(m)) == map_model(*old(m)).insert(k@, v),
{
    m.insert(k, v);
}

/// Relies on the serde_json::Value::String constructor: the JSON string
/// holding exactly this text.
#[verifier::external_body]
pub(crate) fn string_value(s: String) -> (r: serde_json::Value)
    ensures
        r == string_of(s@),
{
    serde_json::Value::String(s)
}

/// Relies on the serde_json::Value::Object constructor: the JSON object
/// holding exactly these members.
#[verifier::external_body]
pub(crate) fn object_value(m: serde_json::Map<String, serde_json::Value>) -> (r:
    serde_json::Value)
    ensures
        r == object_of(map_model(m)),
{
    serde_json::Value::Object(m)
}

} // verus!
