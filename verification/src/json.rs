//! JSON documents, as `serde_json` reads them.
//!
//! A document is a `serde_json::Value`. What it holds is reached through
//! the functions of this file, each of which hands out one part of it.

use vstd::prelude::*;

verus! {

/// `serde_json::Value`: a JSON document or a part of one. Nothing is
/// known of what is inside but through the functions below.
#[verifier::external_type_specification]
#[verifier::external_body]
pub struct ExJsonValue(serde_json::Value);

/// `serde_json::Number`: a JSON number.
#[verifier::external_type_specification]
#[verifier::external_body]
pub struct ExJsonNumber(serde_json::Number);

/// The document that `text` denotes, if it is one JSON document.
pub uninterp spec fn json_document(text: Seq<char>) -> Option<serde_json::Value>;

/// The member `key` of `v`, if `v` is an object that has one.
pub uninterp spec fn json_member(v: serde_json::Value, key: Seq<char>) -> Option<
    serde_json::Value,
>;

/// The text of `v`, if `v` is a string.
pub uninterp spec fn json_string(v: serde_json::Value) -> Option<Seq<char>>;

/// The number of `v`, if `v` is a number.
pub uninterp spec fn json_number(v: serde_json::Value) -> Option<serde_json::Number>;

/// The decimal numeral that a number is written as.
pub uninterp spec fn number_text(n: serde_json::Number) -> Seq<char>;

/// The numeral of `v`, if `v` is a number.
pub open spec fn json_numeral(v: serde_json::Value) -> Option<Seq<char>> {
    match json_number(v) {
        Some(n) => Some(number_text(n)),
        None => None,
    }
}

/// The items of `v`, if `v` is an array.
pub uninterp spec fn json_items(v: serde_json::Value) -> Option<Seq<serde_json::Value>>;

/// The number of `v`, if `v` is a whole number from 0 to the largest
/// `u64`.
pub uninterp spec fn json_unsigned(v: serde_json::Value) -> Option<u64>;

/// The truth value of `v`, if `v` is `true` or `false`.
pub uninterp spec fn json_boolean(v: serde_json::Value) -> Option<bool>;

/// `serde_json::from_str`, read as a `Value`: the document that `text`
/// denotes, `None` where `text` is not one JSON document. The same text
/// gives the same document.
#[verifier::external_body]
pub(crate) fn document(text: &str) -> (r: Option<serde_json::Value>)
    ensures
        r == json_document(text@),
{
    serde_json::from_str::<serde_json::Value>(text).ok()
}

/// `serde_json::Value::get` with a string key: the member of that name
/// where `v` is an object that has one, `None` otherwise.
#[verifier::external_body]
pub(crate) fn member<'a>(v: &'a serde_json::Value, key: &str) -> (r: Option<&'a serde_json::Value>)
    ensures
        r matches Some(m) ==> json_member(*v, key@) == Some(*m),
        r is None ==> json_member(*v, key@) is None,
{
    v.get(key)
}

/// `serde_json::Value::as_str`: the text where `v` is a string, `None`
/// otherwise.
#[verifier::external_body]
pub(crate) fn string<'a>(v: &'a serde_json::Value) -> (r: Option<&'a str>)
    ensures
        r matches Some(s) ==> json_string(*v) == Some(s@),
        r is None ==> json_string(*v) is None,
{
    v.as_str()
}

/// `serde_json::Value::as_number`: the number where `v` is one, `None`
/// otherwise.
#[verifier::external_body]
pub(crate) fn number<'a>(v: &'a serde_json::Value) -> (r: Option<&'a serde_json::Number>)
    ensures
        r matches Some(n) ==> json_number(*v) == Some(*n),
        r is None ==> json_number(*v) is None,
{
    v.as_number()
}

/// `serde_json::Number`'s `Display`: the number as a decimal numeral.
#[verifier::external_body]
pub(crate) fn written(n: &serde_json::Number) -> (r: String)
    ensures
        r@ == number_text(*n),
{
    n.to_string()
}

/// The numeral of `v`, if `v` is a number.
pub(crate) fn numeral(v: &serde_json::Value) -> (r: Option<String>)
    ensures
        crate::text::opt_text(r) == json_numeral(*v),
{
    match number(v) {
        Some(n) => Some(written(n)),
        None => None,
    }
}

/// `serde_json::Value::as_array`: the items where `v` is an array, `None`
/// otherwise.
#[verifier::external_body]
pub(crate) fn items<'a>(v: &'a serde_json::Value) -> (r: Option<&'a Vec<serde_json::Value>>)
    ensures
        r matches Some(a) ==> json_items(*v) == Some(a@),
        r is None ==> json_items(*v) is None,
{
    v.as_array()
}

/// `serde_json::Value::as_u64`: the number where `v` is a whole number that
/// fits, `None` otherwise.
#[verifier::external_body]
pub(crate) fn unsigned(v: &serde_json::Value) -> (r: Option<u64>)
    ensures
        r == json_unsigned(*v),
{
    v.as_u64()
}

/// `serde_json::Value::as_bool`: the truth value where `v` is one, `None`
/// otherwise.
#[verifier::external_body]
pub(crate) fn boolean(v: &serde_json::Value) -> (r: Option<bool>)
    ensures
        r == json_boolean(*v),
{
    v.as_bool()
}

} // verus!
