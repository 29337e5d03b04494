//! JSON documents.
//!
//! A document is held as a `serde_json::Value`. To the verifier such a value is
//! opaque; what it holds is named by [`json_of`], and the items of this module say
//! over that name what each operation of `serde_json` does. Nothing here is proved
//! but the last few functions: these contracts are the crate's assumptions about
//! `serde_json`. It is built without `preserve_order` and `arbitrary_precision`, so that
//! an object keeps its fields ordered by key, and with `raw_value`, which
//! `osproxy_rewrite` asks for: a text whose object begins with the key [`RAW_KEY`] is
//! then read as the document that the text behind that key is.
use vstd::prelude::*;

verus! {

#[verifier::external_type_specification]
#[verifier::external_body]
pub struct ExValue(serde_json::Value);

#[verifier::external_type_specification]
#[verifier::external_body]
pub struct ExNumber(serde_json::Number);

#[verifier::external_type_specification]
#[verifier::external_body]
#[verifier::reject_recursive_types(K)]
#[verifier::reject_recursive_types(V)]
pub struct ExMap<K, V>(serde_json::Map<K, V>);

#[verifier::external_type_specification]
#[verifier::external_body]
pub struct ExError(serde_json::Error);

/// The key by which `serde_json` tells an object that stands for a raw text.
pub const RAW_KEY: &'static str = "$serde_json::private::RawValue";

/// What a JSON document holds.
pub enum Json {
    /// `null`.
    Null,
    /// `true` or `false`.
    Bool(bool),
    /// A number; nothing in this crate looks inside one.
    Number(serde_json::Number),
    /// A string.
    Text(Seq<char>),
    /// An array.
    List(Seq<Json>),
    /// An object.
    Fields(Map<Seq<char>, Json>),
}

/// What a `serde_json::Value` holds.
pub uninterp spec fn json_of(v: serde_json::Value) -> Json;

/// The fields that a `serde_json::Map` holds.
pub uninterp spec fn fields_of(m: serde_json::Map<String, serde_json::Value>) -> Map<
    Seq<char>,
    Json,
>;

/// The document that some bytes are read as, if they are JSON. An object is read as its
/// fields, unless it begins with [`RAW_KEY`].
pub uninterp spec fn parsed(bytes: Seq<u8>) -> Option<Json>;

/// The text of a document.
pub uninterp spec fn serialized(doc: Json) -> Seq<u8>;

/// What the values of a list hold.
pub open spec fn jsons(values: Seq<serde_json::Value>) -> Seq<Json> {
    Seq::new(values.len(), |i: int| json_of(values[i]))
}

/// The fields of an empty object.
pub open spec fn no_fields() -> Map<Seq<char>, Json> {
    Map::empty()
}

/// An object with a single field.
pub open spec fn single(key: Seq<char>, value: Json) -> Json {
    Json::Fields(no_fields().insert(key, value))
}

impl Json {
    /// A field of an object; nothing else has fields.
    pub open spec fn get(self, key: Seq<char>) -> Option<Json> {
        match self {
            Json::Fields(m) => if m.dom().contains(key) {
                Some(m[key])
            } else {
                None
            },
            _ => None,
        }
    }

    /// A field of an object, where it is a string.
    pub open spec fn text_at(self, key: Seq<char>) -> Option<Seq<char>> {
        match self.get(key) {
            Some(Json::Text(s)) => Some(s),
            _ => None,
        }
    }

    /// A field of an object, where it is a boolean.
    pub open spec fn bool_at(self, key: Seq<char>) -> Option<bool> {
        match self.get(key) {
            Some(Json::Bool(b)) => Some(b),
            _ => None,
        }
    }
}

/// `serde_json::from_slice` as a `Value`: the value of some JSON text, or an error
/// where the bytes are no JSON text. Which bytes are, and what they hold, is left
/// to the name.
#[verifier::external_body]
pub(crate) fn parse(bytes: &[u8]) -> (r: Result<serde_json::Value, serde_json::Error>)
    ensures
        match r {
            Ok(v) => parsed(bytes@) == Some(json_of(v)),
            Err(_) => parsed(bytes@) is None,
        },
{
    serde_json::from_slice(bytes)
}

/// `serde_json::to_vec` of a `Value`: its text, which depends on nothing but what
/// the value holds. How the text looks is left to the name. It does not fail: a
/// `Value` has string keys and finite numbers only, and a `Vec` takes every write.
#[verifier::external_body]
pub(crate) fn serialize(v: &serde_json::Value) -> (r: Result<Vec<u8>, serde_json::Error>)
    ensures
        match r {
            Ok(bytes) => bytes@ == serialized(json_of(*v)),
            Err(_) => false,
        },
{
    serde_json::to_vec(v)
}

/// `Value::clone` gives a value that holds the same.
pub assume_specification[ <serde_json::Value as Clone>::clone ](v: &serde_json::Value) -> (r:
    serde_json::Value)
    ensures
        json_of(r) == json_of(*v),
;

/// `Value::as_str` gives the characters of a string and nothing of another value.
pub assume_specification[ serde_json::Value::as_str ](v: &serde_json::Value) -> (r: Option<&str>)
    ensures
        match r {
            Some(s) => json_of(*v) == Json::Text(s@),
            None => !(json_of(*v) is Text),
        },
;

/// `Value::as_bool` gives the value of a boolean and nothing of another value.
pub assume_specification[ serde_json::Value::as_bool ](v: &serde_json::Value) -> (r: Option<bool>)
    ensures
        match r {
            Some(b) => json_of(*v) == Json::Bool(b),
            None => !(json_of(*v) is Bool),
        },
;

/// `Value::as_array` gives the elements of an array and nothing of another value.
pub assume_specification[ serde_json::Value::as_array ](v: &serde_json::Value) -> (r: Option<
    &Vec<serde_json::Value>,
>)
    ensures
        match r {
            Some(list) => json_of(*v) == Json::List(jsons(list@)),
            None => !(json_of(*v) is List),
        },
;

/// `Value::as_array_mut` gives the elements of an array to change: the value then
/// holds the elements as they were left. It gives nothing of another value.
pub assume_specification[ serde_json::Value::as_array_mut ](v: &mut serde_json::Value) -> (r: Option<
    &mut Vec<serde_json::Value>,
>)
    ensures
        match r {
            Some(list) => {
                &&& json_of(*old(v)) == Json::List(jsons(list@))
                &&& json_of(*final(v)) == Json::List(jsons(final(list)@))
            },
            None => !(json_of(*old(v)) is List) && *final(v) == *old(v),
        },
;

/// `Value::as_object` gives the fields of an object and nothing of another value.
pub assume_specification[ serde_json::Value::as_object ](v: &serde_json::Value) -> (r: Option<
    &serde_json::Map<String, serde_json::Value>,
>)
    ensures
        match r {
            Some(m) => json_of(*v) == Json::Fields(fields_of(*m)),
            None => !(json_of(*v) is Fields),
        },
;

/// `Value::as_object_mut` gives the fields of an object to change: the value then
/// holds the fields as they were left. It gives nothing of another value.
pub assume_specification[ serde_json::Value::as_object_mut ](v: &mut serde_json::Value) -> (r: Option<
    &mut serde_json::Map<String, serde_json::Value>,
>)
    ensures
        match r {
            Some(m) => {
                &&& json_of(*old(v)) == Json::Fields(fields_of(*m))
                &&& json_of(*final(v)) == Json::Fields(fields_of(*final(m)))
            },
            None => !(json_of(*old(v)) is Fields) && *final(v) == *old(v),
        },
;

/// `Value::get` by a string gives that field of an object, and nothing of a value
/// that is no object or lacks it.
#[verifier::external_body]
pub(crate) fn get<'a>(v: &'a serde_json::Value, key: &str) -> (r: Option<&'a serde_json::Value>)
    ensures
        match r {
            Some(field) => json_of(*v).get(key@) == Some(json_of(*field)),
            None => json_of(*v).get(key@) is None,
        },
{
    v.get(key)
}

/// `Value::get_mut` by a string gives that field of an object to change: the object
/// then holds the field as it was left, and the rest as it was.
#[verifier::external_body]
pub(crate) fn get_mut<'a>(v: &'a mut serde_json::Value, key: &str) -> (r: Option<
    &'a mut serde_json::Value,
>)
    ensures
        match r {
            Some(field) => {
                &&& json_of(*old(v)).get(key@) == Some(json_of(*field))
                &&& json_of(*final(v)) == Json::Fields(
                    json_of(*old(v))->Fields_0.insert(key@, json_of(*final(field))),
                )
            },
            None => json_of(*old(v)).get(key@) is None && *final(v) == *old(v),
        },
{
    v.get_mut(key)
}

/// `Map::new` gives a map with no fields.
pub assume_specification[ serde_json::Map::<String, serde_json::Value>::new ]() -> (r:
    serde_json::Map<String, serde_json::Value>)
    ensures
        fields_of(r) == no_fields(),
;

/// `Map::insert` sets one field and leaves the others.
pub assume_specification[ serde_json::Map::<String, serde_json::Value>::insert ](
    m: &mut serde_json::Map<String, serde_json::Value>,
    key: String,
    value: serde_json::Value,
) -> (r: Option<serde_json::Value>)
    ensures
        fields_of(*final(m)) == fields_of(*old(m)).insert(key@, json_of(value)),
        match r {
            Some(was) => fields_of(*old(m)).dom().contains(key@) && json_of(was) == fields_of(
                *old(m),
            )[key@],
            None => !fields_of(*old(m)).dom().contains(key@),
        },
;

/// `Map::get` gives one field, or nothing where the map lacks it.
#[verifier::external_body]
pub(crate) fn field<'a>(m: &'a serde_json::Map<String, serde_json::Value>, key: &str) -> (r: Option<
    &'a serde_json::Value,
>)
    ensures
        match r {
            Some(v) => fields_of(*m).dom().contains(key@) && json_of(*v) == fields_of(*m)[key@],
            None => !fields_of(*m).dom().contains(key@),
        },
{
    m.get(key)
}

/// `Map::get_mut` gives one field to change: the map then holds it as it was left,
/// and the rest as it was. It gives nothing where the map lacks the field.
#[verifier::external_body]
pub(crate) fn field_mut<'a>(
    m: &'a mut serde_json::Map<String, serde_json::Value>,
    key: &str,
) -> (r: Option<&'a mut serde_json::Value>)
    ensures
        match r {
            Some(v) => {
                &&& fields_of(*old(m)).dom().contains(key@)
                &&& json_of(*v) == fields_of(*old(m))[key@]
                &&& fields_of(*final(m)) == fields_of(*old(m)).insert(key@, json_of(*final(v)))
            },
            None => !fields_of(*old(m)).dom().contains(key@) && *final(m) == *old(m),
        },
{
    m.get_mut(key)
}

/// `Map::iter` walks the fields: each once, with what it holds.
#[verifier::external_body]
pub(crate) fn entries(m: &serde_json::Map<String, serde_json::Value>) -> (r: Vec<
    (String, serde_json::Value),
>)
    ensures
        forall|i: int|
            0 <= i < r@.len() ==> fields_of(*m).dom().contains((#[trigger] r@[i]).0@) && fields_of(
                *m,
            )[r@[i].0@] == json_of(r@[i].1),
        forall|i: int, j: int|
            0 <= i < j < r@.len() ==> (#[trigger] r@[i]).0@ != (#[trigger] r@[j]).0@,
        forall|key: Seq<char>| #[trigger]
            fields_of(*m).dom().contains(key) ==> exists|i: int|
                0 <= i < r@.len() && (#[trigger] r@[i]).0@ == key,
{
    m.iter().map(|(k, v)| (k.clone(), v.clone())).collect()
}

/// A `Value::String` with the given characters.
#[verifier::external_body]
pub(crate) fn text_value(s: &str) -> (v: serde_json::Value)
    ensures
        json_of(v) == Json::Text(s@),
{
    serde_json::Value::String(s.to_owned())
}

/// A `Value::Object` with the given fields.
#[verifier::external_body]
pub(crate) fn object_value(m: serde_json::Map<String, serde_json::Value>) -> (v: serde_json::Value)
    ensures
        json_of(v) == Json::Fields(fields_of(m)),
{
    serde_json::Value::Object(m)
}

/// A `Value::Array` with the given elements.
#[verifier::external_body]
pub(crate) fn list_value(values: Vec<serde_json::Value>) -> (v: serde_json::Value)
    ensures
        json_of(v) == Json::List(jsons(values@)),
{
    serde_json::Value::Array(values)
}

/// The text of a JSON document, read; `None` where it is none.
pub(crate) fn parse_text(s: &str) -> (r: Option<serde_json::Value>)
    ensures
        match r {
            Some(v) => parsed(vstd::utf8::encode_utf8(s@)) == Some(json_of(v)),
            None => parsed(vstd::utf8::encode_utf8(s@)) is None,
        },
{
    match parse(s.as_bytes()) {
        Ok(v) => Some(v),
        Err(_) => None,
    }
}

} // verus!
