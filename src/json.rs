//! The JSON documents that the provider returns and the tool stores, read and
//! written through `serde_json`.
use vstd::prelude::*;

verus! {

#[verifier::external_type_specification]
#[verifier::external_body]
pub struct ExValue(serde_json::Value);

#[verifier::external_type_specification]
#[verifier::external_body]
pub struct ExJsonError(serde_json::Error);

/// Whether `serde_json` reads `text` as one whole JSON document.
pub uninterp spec fn is_json_text(text: Seq<char>) -> bool;

/// The document that `serde_json` reads from `text`.
pub uninterp spec fn json_of(text: Seq<char>) -> serde_json::Value;

/// The member `key` of an object value; `None` for other values.
pub uninterp spec fn member_of(v: serde_json::Value, key: Seq<char>) -> Option<serde_json::Value>;

/// Whether a value is an object.
pub uninterp spec fn is_object(v: serde_json::Value) -> bool;

/// The text of a string value.
pub uninterp spec fn text_of(v: serde_json::Value) -> Option<Seq<char>>;

/// The items of an array value.
pub uninterp spec fn list_of(v: serde_json::Value) -> Option<Seq<serde_json::Value>>;

/// The value of a number that fits in a `u64`.
pub uninterp spec fn number_of(v: serde_json::Value) -> Option<u64>;

/// The value written as compact JSON text.
pub uninterp spec fn json_text_of(v: serde_json::Value) -> Seq<char>;

/// The value written as indented JSON text.
pub uninterp spec fn pretty_of(v: serde_json::Value) -> Seq<char>;

pub open spec fn text_view(o: Option<String>) -> Option<Seq<char>> {
    match o {
        Some(s) => Some(s@),
        None => None,
    }
}

pub open spec fn list_view(o: Option<Vec<serde_json::Value>>) -> Option<Seq<serde_json::Value>> {
    match o {
        Some(l) => Some(l@),
        None => None,
    }
}

/// The text of the member `key`, when it is a string.
pub open spec fn text_member_of(v: serde_json::Value, key: Seq<char>) -> Option<Seq<char>> {
    match member_of(v, key) {
        Some(m) => text_of(m),
        None => None,
    }
}

/// The member `key`, when it is a number that fits in a `u64`.
pub open spec fn number_member_of(v: serde_json::Value, key: Seq<char>) -> Option<u64> {
    match member_of(v, key) {
        Some(m) => number_of(m),
        None => None,
    }
}

/// No two members share a key.
pub open spec fn keys_distinct(members: Seq<(String, serde_json::Value)>) -> bool {
    forall|i: int, j: int|
        0 <= i < members.len() && 0 <= j < members.len() && i != j ==> (#[trigger] members[i]).0@
            != (#[trigger] members[j]).0@
}

/// `Value` derives `Clone`: the copy equals the value it was made from.
pub assume_specification[ <serde_json::Value as Clone>::clone ](v: &serde_json::Value) -> (r:
    serde_json::Value)
    ensures
        r == *v,
;

/// Relies on `serde_json::from_str`: `Ok` with the document exactly when the
/// text is one JSON document.
#[verifier::external_body]
pub(crate) fn parse_document(text: &str) -> (r: Result<serde_json::Value, serde_json::Error>)
    ensures
        r is Ok <==> is_json_text(text@),
        r matches Ok(v) ==> v == json_of(text@),
{
    serde_json::from_str::<serde_json::Value>(text)
}

/// Relies on `Value::get`: the member `key` of an object, if there is one;
/// a string key finds nothing in any other value.
#[verifier::external_body]
pub(crate) fn member(v: &serde_json::Value, key: &str) -> (r: Option<serde_json::Value>)
    ensures
        r == member_of(*v, key@),
        r is Some ==> is_object(*v),
{
    v.get(key).cloned()
}

/// Relies on `Value::as_str`: the text of a string value.
#[verifier::external_body]
pub(crate) fn as_text(v: &serde_json::Value) -> (r: Option<String>)
    ensures
        text_view(r) == text_of(*v),
{
    v.as_str().map(|s| s.to_string())
}

/// Relies on `Value::as_array`: the items of an array value.
#[verifier::external_body]
pub(crate) fn as_list(v: &serde_json::Value) -> (r: Option<Vec<serde_json::Value>>)
    ensures
        list_view(r) == list_of(*v),
{
    v.as_array().cloned()
}

/// Relies on `Value`'s `Display`: the value written as JSON text.
#[verifier::external_body]
pub(crate) fn render(v: &serde_json::Value) -> (r: String)
    ensures
        r@ == json_text_of(*v),
{
    v.to_string()
}

/// Relies on `Value::as_u64`: the value of a number that fits in a `u64`.
#[verifier::external_body]
pub(crate) fn as_number(v: &serde_json::Value) -> (r: Option<u64>)
    ensures
        r == number_of(*v),
{
    v.as_u64()
}

/// Relies on `Value::String`: a string value holding `s`, which `as_str` gives back.
#[verifier::external_body]
pub(crate) fn text_value(s: &str) -> (r: serde_json::Value)
    ensures
        text_of(r) == Some(s@),
{
    serde_json::Value::String(s.to_string())
}

/// Relies on `Value`'s `From<u64>`: a number value, which `as_u64` gives back.
#[verifier::external_body]
pub(crate) fn number_value(n: u64) -> (r: serde_json::Value)
    ensures
        number_of(r) == Some(n),
{
    serde_json::Value::from(n)
}

/// Relies on `Value::Array`: an array value holding `items`, which `as_array` gives back.
#[verifier::external_body]
pub(crate) fn list_value(items: Vec<serde_json::Value>) -> (r: serde_json::Value)
    ensures
        list_of(r) == Some(items@),
{
    serde_json::Value::Array(items)
}

/// Relies on `Map`'s `FromIterator` and `Value::get`: an object whose members
/// are those given, when their keys differ.
#[verifier::external_body]
pub(crate) fn object_value(members: Vec<(String, serde_json::Value)>) -> (r: serde_json::Value)
    ensures
        is_object(r),
        keys_distinct(members@) ==> forall|i: int|
            0 <= i < members@.len() ==> member_of(r, (#[trigger] members@[i]).0@) == Some(
                members@[i].1,
            ),
{
    serde_json::Value::Object(members.into_iter().collect())
}

/// Relies on `Map::insert` on an object value: the member `key` becomes
/// `value` and the other members stay.
#[verifier::external_body]
pub(crate) fn set_member(doc: &mut serde_json::Value, key: &str, value: serde_json::Value)
    ensures
        is_object(*old(doc)) ==> member_of(*final(doc), key@) == Some(value),
        is_object(*old(doc)) ==> forall|k: Seq<char>|
            k != key@ ==> #[trigger] member_of(*final(doc), k) == member_of(*old(doc), k),
{
    if let Some(m) = doc.as_object_mut() {
        m.insert(key.to_string(), value);
    }
}

/// Relies on `serde_json::to_string_pretty`, which fails only through a
/// failing `Serialize` impl or a non-string map key, neither of which a
/// `Value` has: the value as indented JSON text.
#[verifier::external_body]
pub(crate) fn pretty_text(v: &serde_json::Value) -> (r: Result<String, serde_json::Error>)
    ensures
        r is Ok,
        r is Ok ==> r->Ok_0@ == pretty_of(*v),
{
    serde_json::to_string_pretty(v)
}

/// Relies on `Value::Null`, which is neither a string nor a number.
#[verifier::external_body]
pub(crate) fn null_value() -> (r: serde_json::Value)
    ensures
        text_of(r) is None,
        number_of(r) is None,
{
    serde_json::Value::Null
}

/// The text of the member `key`, when it is a string.
pub(crate) fn text_member(v: &serde_json::Value, key: &str) -> (r: Option<String>)
    ensures
        text_view(r) == text_member_of(*v, key@),
{
    match member(v, key) {
        Some(m) => as_text(&m),
        None => None,
    }
}

/// The member `key`, when it is a number that fits in a `u64`.
pub(crate) fn number_member(v: &serde_json::Value, key: &str) -> (r: Option<u64>)
    ensures
        r == number_member_of(*v, key@),
{
    match member(v, key) {
        Some(m) => as_number(&m),
        None => None,
    }
}

} // verus!
