//! Reading members of JSON objects.
use vstd::prelude::*;

verus! {

/// The string member `key` of the JSON object that `text` holds, if `text`
/// is a JSON object with such a member.
pub uninterp spec fn json_member_str(text: Seq<char>, key: Seq<char>) -> Option<Seq<char>>;

/// The boolean member `key` of the JSON object that `text` holds, if `text`
/// is a JSON object with such a member.
pub uninterp spec fn json_member_bool(text: Seq<char>, key: Seq<char>) -> Option<bool>;

/// Relies on `serde_json::from_str` into a `serde_json::Value`, then
/// `Value::get` and `Value::as_str`: the string member of the object.
#[verifier::external_body]
pub(crate) fn str_member(text: &str, key: &str) -> (r: Option<String>)
    ensures
        match r {
            Some(s) => json_member_str(text@, key@) == Some(s@),
            None => json_member_str(text@, key@) is None,
        },
{
    let v: serde_json::Value = serde_json::from_str(text).ok()?;
    v.get(key)?.as_str().map(String::from)
}

/// Relies on `serde_json::from_str` into a `serde_json::Value`, then
/// `Value::get` and `Value::as_bool`: the boolean member of the object.
#[verifier::external_body]
pub(crate) fn bool_member(text: &str, key: &str) -> (r: Option<bool>)
    ensures
        r == json_member_bool(text@, key@),
{
    let v: serde_json::Value = serde_json::from_str(text).ok()?;
    v.get(key)?.as_bool()
}

} // verus!
