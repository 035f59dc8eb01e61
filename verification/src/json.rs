//! The JSON documents the exchanges send, handled through `serde_json`.
//!
//! A parsed document is a `serde_json::Value`, an outside type whose inside
//! the library does not inspect. Its contents are described by the compact
//! text that `Value`'s `Display` writes; every other operation is described
//! over that text.
use vstd::prelude::*;

verus! {

#[verifier::external_type_specification]
#[verifier::external_body]
pub struct ExJsonValue(serde_json::Value);

#[verifier::external_type_specification]
#[verifier::external_body]
pub struct ExJsonError(serde_json::Error);

/// The compact JSON text that `Display for serde_json::Value` writes for a value.
pub uninterp spec fn json_text(v: serde_json::Value) -> Seq<char>;

/// The compact text of the value `serde_json::from_str::<Value>` reads from
/// `raw`, or `None` where it returns an error.
pub uninterp spec fn json_parse(raw: Seq<char>) -> Option<Seq<char>>;

/// The compact text of `value[key]` for the value whose compact text is `text`.
pub uninterp spec fn json_member(text: Seq<char>, key: Seq<char>) -> Seq<char>;

/// The compact text of `value[index]` for the value whose compact text is `text`.
pub uninterp spec fn json_element(text: Seq<char>, index: nat) -> Seq<char>;

/// Whether `value == s` holds for the value whose compact text is `text`
/// (that is, whether the value is the JSON string `s`).
pub uninterp spec fn json_is_str(text: Seq<char>, s: Seq<char>) -> bool;

/// Parses a JSON document: calls `serde_json::from_str::<serde_json::Value>`.
/// Claims that success and the value read depend on the text alone.
#[verifier::external_body]
pub(crate) fn parse_json(raw: &str) -> (r: Result<serde_json::Value, serde_json::Error>)
    ensures
        r is Ok <==> json_parse(raw@) is Some,
        r matches Ok(v) ==> json_text(v) == json_parse(raw@)->0,
{
    serde_json::from_str(raw)
}

/// `v[key]`: calls `Index<&str> for serde_json::Value`, which yields `Null`
/// where `v` is no object or lacks the key, and never panics. Claims that the
/// member depends on the value's text and the key alone.
#[verifier::external_body]
pub(crate) fn json_get<'a>(v: &'a serde_json::Value, key: &str) -> (r: &'a serde_json::Value)
    ensures
        json_text(*r) == json_member(json_text(*v), key@),
{
    &v[key]
}

/// `v[index]`: calls `Index<usize> for serde_json::Value`, which yields `Null`
/// where `v` is no array or is too short, and never panics. Claims that the
/// element depends on the value's text and the index alone.
#[verifier::external_body]
pub(crate) fn json_at<'a>(v: &'a serde_json::Value, index: usize) -> (r: &'a serde_json::Value)
    ensures
        json_text(*r) == json_element(json_text(*v), index as nat),
{
    &v[index]
}

/// `v.to_string()`: calls `Display for serde_json::Value` (compact form).
/// Claims that the text is the one `json_text` names.
#[verifier::external_body]
pub(crate) fn json_to_string(v: &serde_json::Value) -> (s: String)
    ensures
        s@ == json_text(*v),
{
    v.to_string()
}

/// `v == s`: calls `PartialEq<&str> for serde_json::Value`, which compares
/// `v.as_str()` with `Some(s)`: true exactly when `v` is a JSON string equal
/// to `s`. Claims that the answer depends on the value's text and `s` alone,
/// and, as `as_str` yields at most one string, that a value equal to `s`
/// equals no other string.
#[verifier::external_body]
pub(crate) fn json_eq_str(v: &serde_json::Value, s: &str) -> (b: bool)
    ensures
        b == json_is_str(json_text(*v), s@),
        b ==> forall|t: Seq<char>| #[trigger] json_is_str(json_text(*v), t) <==> t == s@,
{
    *v == s
}

} // verus!
