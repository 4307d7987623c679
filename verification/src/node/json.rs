//! Members of JSON documents.

use vstd::prelude::*;

verus! {

/// [`serde_json::Value`], a JSON document.
#[verifier::external_type_specification]
#[verifier::external_body]
pub struct ExValue(serde_json::Value);

/// JSON document that a text is, as serde_json reads it; `None` where it is none.
pub uninterp spec fn json_document(data: Seq<u8>) -> Option<serde_json::Value>;

/// `serde_json::from_slice` into a [`serde_json::Value`]: the document of a text, or nothing where
/// the text is not one.
#[verifier::external_body]
fn read_document(data: &[u8]) -> (r: Option<serde_json::Value>)
    ensures
        r == json_document(data@),
{
    serde_json::from_slice(data).ok()
}

/// The JSON document of a text.
#[must_use]
pub fn parse_document(data: &[u8]) -> (r: Option<serde_json::Value>)
    ensures
        r == json_document(data@),
{
    read_document(data)
}

/// Members of a JSON object; a document of another kind has none.
pub uninterp spec fn members(v: serde_json::Value) -> Map<Seq<char>, serde_json::Value>;

/// `serde_json::Value::get` with the name of a member: the member, where the document is an object
/// that has it.
#[verifier::external_body]
pub(crate) fn member<'a>(v: &'a serde_json::Value, name: &str) -> (r: Option<&'a serde_json::Value>)
    ensures
        r is Some <==> members(*v).contains_key(name@),
        r matches Some(m) ==> *m == members(*v)[name@],
{
    v.get(name)
}

/// A JSON object without one of its members; `None` for a document of another kind.
pub uninterp spec fn without_member(v: serde_json::Value, name: Seq<char>) -> Option<
    serde_json::Value,
>;

/// `serde_json::Map::remove` on a copy of an object: the other members stay as they are. A document
/// of another kind has no such copy.
#[verifier::external_body]
pub(crate) fn remove_member(v: &serde_json::Value, name: &str) -> (r: Option<serde_json::Value>)
    ensures
        r == without_member(*v, name@),
        r matches Some(o) ==> members(o) == members(*v).remove(name@),
        members(*v).contains_key(name@) ==> r is Some,
{
    let mut map = v.as_object().cloned()?;
    map.remove(name);
    Some(serde_json::Value::Object(map))
}

/// Text that serde_json writes for a document, without spaces, or why it does not.
pub uninterp spec fn json_text(v: serde_json::Value) -> Result<Seq<u8>, Seq<char>>;

/// `serde_json::to_vec` of a [`serde_json::Value`]: the text of the document, or the message of the
/// error.
#[verifier::external_body]
pub(crate) fn write_document(v: &serde_json::Value) -> (r: Result<Vec<u8>, String>)
    ensures
        match r {
            Ok(b) => json_text(*v) == Ok::<Seq<u8>, Seq<char>>(b@),
            Err(e) => json_text(*v) == Err::<Seq<u8>, Seq<char>>(e@),
        },
{
    serde_json::to_vec(v).map_err(|e| e.to_string())
}

/// Elements of a JSON array; `None` for a document of another kind.
pub uninterp spec fn elements(v: serde_json::Value) -> Option<Seq<serde_json::Value>>;

/// `serde_json::Value::as_array`: the elements, where the document is an array.
#[verifier::external_body]
pub(crate) fn array_of(v: &serde_json::Value) -> (r: Option<&[serde_json::Value]>)
    ensures
        match r {
            Some(l) => elements(*v) == Some(l@),
            None => elements(*v) is None,
        },
{
    v.as_array().map(Vec::as_slice)
}

/// A JSON string; `None` for a document of another kind.
pub uninterp spec fn string_value(v: serde_json::Value) -> Option<Seq<char>>;

/// `serde_json::Value::as_str`: the string, where the document is one.
#[verifier::external_body]
pub(crate) fn string_of_value(v: &serde_json::Value) -> (r: Option<String>)
    ensures
        crate::text::opt_text(r) == string_value(*v),
{
    v.as_str().map(str::to_owned)
}

/// A JSON number from 0 to the largest 64-bit one; `None` for any other document.
pub uninterp spec fn number_value(v: serde_json::Value) -> Option<u64>;

/// `serde_json::Value::as_u64`: the number, where the document is one from 0 to the largest 64-bit
/// one.
#[verifier::external_body]
fn number_of_value(v: &serde_json::Value) -> (r: Option<u64>)
    ensures
        r == number_value(*v),
{
    v.as_u64()
}

/// Elements of a member of a document that is an array; none where it is not.
pub open spec fn elements_of(v: Option<serde_json::Value>, name: Seq<char>) -> Seq<
    serde_json::Value,
> {
    match member_of(v, name) {
        Some(m) => match elements(m) {
            Some(l) => l,
            None => Seq::empty(),
        },
        None => Seq::empty(),
    }
}

/// A member of an optional document that is a number.
pub open spec fn count_of(v: Option<serde_json::Value>, name: Seq<char>) -> Option<u64> {
    if v is Some && count_members(v->0).contains_key(name) {
        Some(count_members(v->0)[name])
    } else {
        None
    }
}

/// A member of an optional document.
pub open spec fn member_of(v: Option<serde_json::Value>, name: Seq<char>) -> Option<
    serde_json::Value,
> {
    if v is Some && members(v->0).contains_key(name) {
        Some(members(v->0)[name])
    } else {
        None
    }
}

/// A member of an optional document that is a string.
pub open spec fn text_of(v: Option<serde_json::Value>, name: Seq<char>) -> Option<Seq<char>> {
    if v is Some && text_members(v->0).contains_key(name) {
        Some(text_members(v->0)[name])
    } else {
        None
    }
}

/// Members of a JSON object whose values are strings; a document of another kind has none.
pub open spec fn text_members(v: serde_json::Value) -> Map<Seq<char>, Seq<char>> {
    Map::new(
        |name: Seq<char>| members(v).contains_key(name) && string_value(members(v)[name]) is Some,
        |name: Seq<char>| string_value(members(v)[name])->0,
    )
}

/// Members of a JSON object whose values are numbers from 0 to the largest 64-bit one; a document
/// of another kind has none.
pub open spec fn count_members(v: serde_json::Value) -> Map<Seq<char>, u64> {
    Map::new(
        |name: Seq<char>| members(v).contains_key(name) && number_value(members(v)[name]) is Some,
        |name: Seq<char>| number_value(members(v)[name])->0,
    )
}

/// The member of a document that is a string.
pub(crate) fn text_member(v: &serde_json::Value, name: &str) -> (r: Option<String>)
    ensures
        r is Some <==> text_members(*v).contains_key(name@),
        r matches Some(t) ==> t@ == text_members(*v)[name@],
{
    match member(v, name) {
        Some(m) => string_of_value(m),
        None => None,
    }
}

/// The member of a document that is a number.
pub(crate) fn count_member(v: &serde_json::Value, name: &str) -> (r: Option<u64>)
    ensures
        r is Some <==> count_members(*v).contains_key(name@),
        r matches Some(n) ==> n == count_members(*v)[name@],
{
    match member(v, name) {
        Some(m) => number_of_value(m),
        None => None,
    }
}

} // verus!
