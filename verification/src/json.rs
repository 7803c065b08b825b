//! The JSON engine. Documents are carried as `serde_json::Value` trees and
//! key/value objects as `serde_json::Map`; both are opaque here. What a
//! tree or an object holds is given by the named observers below, and every
//! reading or building step goes through a trusted wrapper whose contract
//! speaks over those observers. All shape checking on top of this layer is
//! verified code.
use vstd::prelude::*;

use crate::text::lex_lt;

verus! {

#[verifier::external_type_specification]
#[verifier::external_body]
pub struct ExJsonValue(serde_json::Value);

#[verifier::external_type_specification]
#[verifier::external_body]
#[verifier::reject_recursive_types(K)]
#[verifier::reject_recursive_types(V)]
pub struct ExJsonMap<K, V>(serde_json::Map<K, V>);

#[verifier::external_type_specification]
#[verifier::external_body]
pub struct ExJsonError(serde_json::Error);

/// The key/value entries a JSON object holds, keyed by character sequence.
pub uninterp spec fn jmap_model(m: serde_json::Map<String, serde_json::Value>) -> Map<
    Seq<char>,
    serde_json::Value,
>;

/// The character sequence a JSON value holds, if it is a string.
pub uninterp spec fn jv_str(v: serde_json::Value) -> Option<Seq<char>>;

/// The entries a JSON value holds, if it is an object.
pub uninterp spec fn jv_obj(v: serde_json::Value) -> Option<
    Map<Seq<char>, serde_json::Value>,
>;

/// The elements a JSON value holds, if it is an array.
pub uninterp spec fn jv_arr(v: serde_json::Value) -> Option<Seq<serde_json::Value>>;

/// The unsigned integer a JSON value holds, if it is one.
pub uninterp spec fn jv_u64(v: serde_json::Value) -> Option<u64>;

/// Whether a JSON value is `null`.
pub uninterp spec fn jv_is_null(v: serde_json::Value) -> bool;

/// The text `serde_json` prints for a value: a function of the value alone.
pub uninterp spec fn json_text(v: serde_json::Value) -> Seq<char>;

/// The value `serde_json` reads out of a piece of text, if the text is a
/// well-formed JSON document: a function of the text alone.
pub uninterp spec fn value_of_text(s: Seq<char>) -> Option<serde_json::Value>;

/// Relies on `serde_json::Map::new` returning the empty object.
#[verifier::external_body]
pub(crate) fn jmap_new() -> (r: serde_json::Map<String, serde_json::Value>)
    ensures
        forall|k: Seq<char>| !jmap_model(r).contains_key(k),
{
    serde_json::Map::new()
}

/// Relies on `serde_json::Map::insert` binding the key to the value and
/// leaving the other entries alone.
#[verifier::external_body]
pub(crate) fn jmap_insert(
    m: &mut serde_json::Map<String, serde_json::Value>,
    k: String,
    v: serde_json::Value,
)
    ensures
        jmap_model(*final(m)) == jmap_model(*old(m)).insert(k@, v),
{
    m.insert(k, v);
}

/// Relies on `serde_json::Map::get` looking the key up among the entries.
#[verifier::external_body]
pub(crate) fn jmap_get<'a>(
    m: &'a serde_json::Map<String, serde_json::Value>,
    k: &str,
) -> (r: Option<&'a serde_json::Value>)
    ensures
        match r {
            Some(v) => jmap_model(*m).contains_key(k@) && *v == jmap_model(*m)[k@],
            None => !jmap_model(*m).contains_key(k@),
        },
{
    m.get(k)
}

/// Relies on `Clone` for `serde_json::Map` copying the entries.
#[verifier::external_body]
pub(crate) fn jmap_clone(m: &serde_json::Map<String, serde_json::Value>) -> (r: serde_json::Map<
    String,
    serde_json::Value,
>)
    ensures
        jmap_model(r) == jmap_model(*m),
{
    m.clone()
}

/// Relies on `serde_json::Map::iter`. The map is backed by a `BTreeMap`,
/// so iteration hands the entries out in strictly ascending key order,
/// which for UTF-8 encoded `String` keys is the code-point order of the
/// key's characters.
#[verifier::external_body]
pub(crate) fn jmap_entries(m: &serde_json::Map<String, serde_json::Value>) -> (r: Vec<
    (String, serde_json::Value),
>)
    ensures
        forall|i: int|
            0 <= i < r@.len() ==> jmap_model(*m).contains_key(r@[i].0@) && r@[i].1 == jmap_model(
                *m,
            )[r@[i].0@],
        forall|k: Seq<char>|
            jmap_model(*m).contains_key(k) ==> exists|i: int|
                0 <= i < r@.len() && r@[i].0@ == k,
        forall|i: int, j: int| 0 <= i < j < r@.len() ==> lex_lt(r@[i].0@, r@[j].0@),
{
    m.iter().map(|(k, v)| (k.clone(), v.clone())).collect()
}

/// Relies on `serde_json::Value::as_str` returning the held string
/// exactly when the value is a string.
#[verifier::external_body]
pub(crate) fn jv_as_str<'a>(v: &'a serde_json::Value) -> (r: Option<&'a str>)
    ensures
        match r {
            Some(s) => jv_str(*v) == Some(s@),
            None => jv_str(*v) is None,
        },
{
    v.as_str()
}

/// Relies on `serde_json::Value::as_object` returning the held entries
/// exactly when the value is an object.
#[verifier::external_body]
pub(crate) fn jv_as_object<'a>(v: &'a serde_json::Value) -> (r: Option<
    &'a serde_json::Map<String, serde_json::Value>,
>)
    ensures
        match r {
            Some(m) => jv_obj(*v) == Some(jmap_model(*m)),
            None => jv_obj(*v) is None,
        },
{
    v.as_object()
}

/// Relies on `serde_json::Value::as_array` returning the held elements
/// exactly when the value is an array.
#[verifier::external_body]
pub(crate) fn jv_as_array<'a>(v: &'a serde_json::Value) -> (r: Option<&'a Vec<serde_json::Value>>)
    ensures
        match r {
            Some(a) => jv_arr(*v) == Some(a@),
            None => jv_arr(*v) is None,
        },
{
    v.as_array()
}

/// Relies on `serde_json::Value::as_u64` returning the number exactly when
/// the value is an integer that fits in a `u64`.
#[verifier::external_body]
pub(crate) fn jv_as_u64(v: &serde_json::Value) -> (r: Option<u64>)
    ensures
        r == jv_u64(*v),
{
    v.as_u64()
}

/// Relies on `serde_json::Value::is_null`.
#[verifier::external_body]
pub(crate) fn jv_null_check(v: &serde_json::Value) -> (r: bool)
    ensures
        r == jv_is_null(*v),
{
    v.is_null()
}

/// Relies on `serde_json::Value::String` holding exactly the given string.
#[verifier::external_body]
pub(crate) fn jv_of_string(s: String) -> (r: serde_json::Value)
    ensures
        jv_str(r) == Some(s@),
        jv_obj(r) is None,
        jv_arr(r) is None,
        jv_u64(r) is None,
        !jv_is_null(r),
{
    serde_json::Value::String(s)
}

/// Relies on `serde_json::Number::from` and `serde_json::Value::Number`:
/// `as_u64` reads the same number back.
#[verifier::external_body]
pub(crate) fn jv_of_u64(n: u64) -> (r: serde_json::Value)
    ensures
        jv_u64(r) == Some(n),
        jv_str(r) is None,
        jv_obj(r) is None,
        jv_arr(r) is None,
        !jv_is_null(r),
{
    serde_json::Value::Number(serde_json::Number::from(n))
}

/// Relies on `serde_json::Value::Array` holding exactly the given elements.
#[verifier::external_body]
pub(crate) fn jv_of_array(elems: Vec<serde_json::Value>) -> (r: serde_json::Value)
    ensures
        jv_arr(r) == Some(elems@),
        jv_str(r) is None,
        jv_obj(r) is None,
        jv_u64(r) is None,
        !jv_is_null(r),
{
    serde_json::Value::Array(elems)
}

/// Relies on `serde_json::Value::Object` holding exactly the given entries.
#[verifier::external_body]
pub(crate) fn jv_of_object(m: serde_json::Map<String, serde_json::Value>) -> (r: serde_json::Value)
    ensures
        jv_obj(r) == Some(jmap_model(m)),
        jv_str(r) is None,
        jv_arr(r) is None,
        jv_u64(r) is None,
        !jv_is_null(r),
{
    serde_json::Value::Object(m)
}

/// Relies on `serde_json::Value::Null`.
#[verifier::external_body]
pub(crate) fn jv_null() -> (r: serde_json::Value)
    ensures
        jv_is_null(r),
        jv_str(r) is None,
        jv_obj(r) is None,
        jv_arr(r) is None,
        jv_u64(r) is None,
{
    serde_json::Value::Null
}

/// Relies on `serde_json::to_string`: the text depends on the value
/// alone, and on a `Value` the call cannot fail — serialization fails only
/// when a `Serialize` implementation decides to or a map has non-string
/// keys, and a `Value` holds only string-keyed maps and finite numbers.
#[verifier::external_body]
pub(crate) fn value_to_text(v: &serde_json::Value) -> (r: String)
    ensures
        r@ == json_text(*v),
{
    serde_json::to_string(v).unwrap()
}

/// Relies on `serde_json::from_str` for `Value`: the result depends on the
/// text alone, and it fails exactly on text that is not one well-formed
/// JSON document.
#[verifier::external_body]
pub(crate) fn text_to_value(s: &str) -> (r: Result<serde_json::Value, serde_json::Error>)
    ensures
        r matches Ok(v) ==> value_of_text(s@) == Some(v),
        r is Err ==> value_of_text(s@) is None,
{
    serde_json::from_str(s)
}

/// The text `serde_json` prints for an object: a function of its entries.
pub uninterp spec fn map_json_text(m: serde_json::Map<String, serde_json::Value>) -> Seq<char>;

/// Relies on `serde_json::to_string` on an object: the text depends on
/// the entries alone, and the call cannot fail — serialization fails only
/// when a `Serialize` implementation decides to or a map has non-string
/// keys, and this object is string-keyed throughout.
#[verifier::external_body]
pub(crate) fn map_to_text(m: &serde_json::Map<String, serde_json::Value>) -> (r: String)
    ensures
        r@ == map_json_text(*m),
{
    serde_json::to_string(m).unwrap()
}

} // verus!
