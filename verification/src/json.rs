//! JSON values as `serde_json` holds them, and the mathematical model of them
//! that the contracts of this crate speak of.
//!
//! Verified code never looks inside a `serde_json::Value`: it builds and takes
//! apart such values through the functions of this module, each of which
//! states what the corresponding function of `serde_json` does to the model.

use vstd::prelude::*;

verus! {

/// `serde_json::Value`, carried through verified code as an opaque value.
#[verifier::external_type_specification]
#[verifier::external_body]
pub struct ExJsonValue(serde_json::Value);

/// `serde_json::Error`, carried through verified code as an opaque value.
#[verifier::external_type_specification]
#[verifier::external_body]
pub struct ExJsonError(serde_json::Error);

/// A JSON number, told apart as `serde_json` does.
pub enum JsonNumber {
    /// An integer from zero to `u64::MAX`.
    Unsigned(u64),
    /// An integer below zero.
    Negative(i64),
    /// Any other number, given by the text that `serde_json` prints for it.
    Float(Seq<char>),
}

/// The mathematical content of a JSON value.
pub enum JsonModel {
    Null,
    Bool(bool),
    Number(JsonNumber),
    Str(Seq<char>),
    Array(Seq<JsonModel>),
    Object(Map<Seq<char>, JsonModel>),
}

/// What a `serde_json::Value` holds.
pub uninterp spec fn json_model(v: serde_json::Value) -> JsonModel;

/// What `serde_json::from_str` makes of a text: the content of the value it
/// returns, or `None` where it returns an error.
pub uninterp spec fn json_parse(text: Seq<char>) -> Option<JsonModel>;

/// The text that `serde_json::to_string_pretty` writes for a value with the
/// given content.
pub uninterp spec fn json_text(content: JsonModel) -> Seq<char>;

/// The contents of a sequence of values, one by one.
pub open spec fn models_of(items: Seq<serde_json::Value>) -> Seq<JsonModel> {
    Seq::new(items.len(), |i: int| json_model(items[i]))
}

/// No two entries have the same key.
pub open spec fn distinct_keys(entries: Seq<(String, serde_json::Value)>) -> bool {
    forall|i: int, j: int|
        0 <= i < j < entries.len() ==> (#[trigger] entries[i]).0@ != (#[trigger] entries[j]).0@
}

/// The mapping that a sequence of entries stands for; of two entries with one
/// key the later counts.
pub open spec fn entries_model(entries: Seq<(String, serde_json::Value)>) -> Map<
    Seq<char>,
    JsonModel,
>
    decreases entries.len(),
{
    if entries.len() == 0 {
        Map::empty()
    } else {
        entries_model(entries.drop_last()).insert(
            entries.last().0@,
            json_model(entries.last().1),
        )
    }
}

/// The keys of `entries_model` are the keys of the entries, and each entry
/// whose key no later entry repeats gives that key its value.
pub proof fn lemma_entries_model(entries: Seq<(String, serde_json::Value)>)
    ensures
        forall|k: Seq<char>|
            entries_model(entries).contains_key(k) <==> exists|i: int|
                0 <= i < entries.len() && (#[trigger] entries[i]).0@ == k,
        forall|i: int|
            0 <= i < entries.len() && (forall|j: int|
                i < j < entries.len() ==> (#[trigger] entries[j]).0@ != entries[i].0@)
                ==> entries_model(entries)[(#[trigger] entries[i]).0@] == json_model(entries[i].1),
        entries_model(entries).dom().finite(),
    decreases entries.len(),
{
    if entries.len() > 0 {
        let front = entries.drop_last();
        lemma_entries_model(front);
        assert forall|k: Seq<char>|
            entries_model(entries).contains_key(k) <==> exists|i: int|
                0 <= i < entries.len() && (#[trigger] entries[i]).0@ == k by {
            if entries_model(entries).contains_key(k) {
                if k == entries.last().0@ {
                    assert(entries[entries.len() - 1].0@ == k);
                } else {
                    let i = choose|i: int| 0 <= i < front.len() && (#[trigger] front[i]).0@ == k;
                    assert(entries[i].0@ == k);
                }
            }
            if exists|i: int| 0 <= i < entries.len() && (#[trigger] entries[i]).0@ == k {
                let i = choose|i: int| 0 <= i < entries.len() && (#[trigger] entries[i]).0@ == k;
                if i < front.len() {
                    assert(front[i].0@ == k);
                }
            }
        }
        assert forall|i: int|
            0 <= i < entries.len() && (forall|j: int|
                i < j < entries.len() ==> (#[trigger] entries[j]).0@ != entries[i].0@)
                implies entries_model(entries)[(#[trigger] entries[i]).0@] == json_model(
                entries[i].1,
            ) by {
            if i < front.len() {
                assert(front[i] == entries[i]);
                assert(entries[entries.len() - 1].0@ != entries[i].0@);
                assert forall|j: int| i < j < front.len() implies (#[trigger] front[j]).0@
                    != front[i].0@ by {
                    assert(front[j] == entries[j]);
                }
            }
        }
    }
}

/// `Clone` of `serde_json::Value`: a value with the same content.
#[verifier::external_body]
pub(crate) fn json_clone(v: &serde_json::Value) -> (copy: serde_json::Value)
    ensures
        json_model(copy) == json_model(*v),
{
    v.clone()
}

/// `serde_json::Value::Null`: the JSON value `null`.
#[verifier::external_body]
pub(crate) fn json_null() -> (v: serde_json::Value)
    ensures
        json_model(v) == JsonModel::Null,
{
    serde_json::Value::Null
}

/// `serde_json::Value::Bool`: the JSON boolean `b`.
#[verifier::external_body]
pub(crate) fn json_bool(b: bool) -> (v: serde_json::Value)
    ensures
        json_model(v) == JsonModel::Bool(b),
{
    serde_json::Value::Bool(b)
}

/// `serde_json::Value::String`: the JSON string with the characters of `s`.
#[verifier::external_body]
pub(crate) fn json_string(s: String) -> (v: serde_json::Value)
    ensures
        json_model(v) == JsonModel::Str(s@),
{
    serde_json::Value::String(s)
}

/// `From<u64>` of `serde_json::Value`: the JSON number that is the
/// non-negative integer `n`.
#[verifier::external_body]
pub(crate) fn json_u64(n: u64) -> (v: serde_json::Value)
    ensures
        json_model(v) == JsonModel::Number(JsonNumber::Unsigned(n)),
{
    serde_json::Value::from(n)
}

/// `serde_json::Value::Array`: the JSON array of the given items, in order.
#[verifier::external_body]
pub(crate) fn json_array(items: Vec<serde_json::Value>) -> (v: serde_json::Value)
    ensures
        json_model(v) == JsonModel::Array(models_of(items@)),
{
    serde_json::Value::Array(items)
}

/// `FromIterator` of `serde_json::Map`, wrapped in `serde_json::Value::Object`:
/// the JSON object that maps each entry's key to a copy of its value. The keys
/// are required to differ, so that no entry is dropped.
#[verifier::external_body]
pub(crate) fn json_object(entries: &Vec<(String, serde_json::Value)>) -> (v: serde_json::Value)
    requires
        distinct_keys(entries@),
    ensures
        json_model(v) == JsonModel::Object(entries_model(entries@)),
{
    serde_json::Value::Object(entries.iter().cloned().collect())
}

/// `serde_json::Value::get` with a string index: the member of an object
/// under `key`; `None` where the value is no object or has no such member.
#[verifier::external_body]
pub(crate) fn json_field<'a>(v: &'a serde_json::Value, key: &str) -> (r: Option<
    &'a serde_json::Value,
>)
    ensures
        match r {
            Some(member) => json_model(*v) is Object && json_model(*v)->Object_0.contains_key(
                key@,
            ) && json_model(*member) == json_model(*v)->Object_0[key@],
            None => !(json_model(*v) is Object && json_model(*v)->Object_0.contains_key(key@)),
        },
{
    v.get(key)
}

/// `serde_json::Value::as_str`: the characters of a JSON string; `None` for
/// any other value.
#[verifier::external_body]
pub(crate) fn json_as_str<'a>(v: &'a serde_json::Value) -> (r: Option<&'a str>)
    ensures
        match r {
            Some(s) => json_model(*v) == JsonModel::Str(s@),
            None => !(json_model(*v) is Str),
        },
{
    v.as_str()
}

/// `serde_json::Value::as_u64`: the value of a JSON number that is a
/// non-negative integer up to `u64::MAX`; `None` for any other value.
#[verifier::external_body]
pub(crate) fn json_as_u64(v: &serde_json::Value) -> (r: Option<u64>)
    ensures
        match r {
            Some(n) => json_model(*v) == JsonModel::Number(JsonNumber::Unsigned(n)),
            None => !(json_model(*v) matches JsonModel::Number(JsonNumber::Unsigned(_))),
        },
{
    v.as_u64()
}

/// `serde_json::Value::as_array`: the items of a JSON array; `None` for any
/// other value.
#[verifier::external_body]
pub(crate) fn json_as_array<'a>(v: &'a serde_json::Value) -> (r: Option<
    &'a Vec<serde_json::Value>,
>)
    ensures
        match r {
            Some(items) => json_model(*v) == JsonModel::Array(models_of(items@)),
            None => !(json_model(*v) is Array),
        },
{
    v.as_array()
}

/// `serde_json::Value::as_object` and `serde_json::Map::iter`: copies of the
/// members of a JSON object, each key once; `None` for any other value.
#[verifier::external_body]
pub(crate) fn json_entries(v: &serde_json::Value) -> (r: Option<Vec<(String, serde_json::Value)>>)
    ensures
        match r {
            Some(entries) => distinct_keys(entries@) && json_model(*v) == JsonModel::Object(
                entries_model(entries@),
            ),
            None => !(json_model(*v) is Object),
        },
{
    v.as_object().map(|m| m.iter().map(|(k, x)| (k.clone(), x.clone())).collect())
}

/// `serde_json::Value::is_null`.
#[verifier::external_body]
pub(crate) fn json_is_null(v: &serde_json::Value) -> (r: bool)
    ensures
        r == (json_model(*v) is Null),
{
    v.is_null()
}

/// `serde_json::Value::is_number`.
#[verifier::external_body]
pub(crate) fn json_is_number(v: &serde_json::Value) -> (r: bool)
    ensures
        r == (json_model(*v) is Number),
{
    v.is_number()
}

/// `serde_json::from_str` for a `serde_json::Value`: the value that the text
/// denotes, or the error with which the text is refused. Which of the two,
/// and the content of the value, depend on the text alone.
#[verifier::external_body]
pub(crate) fn json_from_text(text: &str) -> (r: Result<serde_json::Value, serde_json::Error>)
    ensures
        match r {
            Ok(v) => json_parse(text@) == Some(json_model(v)),
            Err(_) => json_parse(text@) is None,
        },
{
    serde_json::from_str(text)
}

/// `serde_json::to_string_pretty` for a `serde_json::Value`: it succeeds, and
/// the text depends on the content of the value alone. Writing a value cannot
/// fail: the text goes into memory, the keys of objects are strings, and
/// every number is finite.
#[verifier::external_body]
pub(crate) fn json_to_text(v: &serde_json::Value) -> (r: Result<String, serde_json::Error>)
    ensures
        r is Ok,
        r matches Ok(text) ==> text@ == json_text(json_model(*v)),
{
    serde_json::to_string_pretty(v)
}

/// `serde::de::Error::custom` of `serde_json::Error`: an error that carries
/// the given reason.
#[verifier::external_body]
pub(crate) fn json_error(reason: &str) -> serde_json::Error {
    <serde_json::Error as serde::de::Error>::custom(reason)
}

/// `ToString` of `serde_json::Error`: the text that describes the error.
#[verifier::external_body]
pub(crate) fn json_error_text(e: &serde_json::Error) -> String {
    e.to_string()
}

} // verus!
