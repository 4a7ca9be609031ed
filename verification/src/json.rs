//! JSON values as `serde_json` reads them: names for what its calls
//! return, and the wrappers that make those calls.
use vstd::prelude::*;

verus! {

/// The member named `key` of a JSON value, when it is an object holding
/// one (`serde_json::Value::get`).
pub uninterp spec fn json_get(v: serde_json::Value, key: Seq<char>) -> Option<serde_json::Value>;

/// A JSON value as a `u64` (`serde_json::Value::as_u64`).
pub uninterp spec fn json_as_u64(v: serde_json::Value) -> Option<u64>;

/// A JSON value as an `i64` (`serde_json::Value::as_i64`).
pub uninterp spec fn json_as_i64(v: serde_json::Value) -> Option<i64>;

/// A JSON value as a string (`serde_json::Value::as_str`).
pub uninterp spec fn json_as_str(v: serde_json::Value) -> Option<Seq<char>>;

/// Whether a JSON value is an object (`serde_json::Value::is_object`).
pub uninterp spec fn json_is_obj(v: serde_json::Value) -> bool;

/// `serde_json::Value::get(key)`: the member of an object, if any; the
/// result is named by `json_get`.
#[verifier::external_body]
pub(crate) fn json_member<'a>(v: &'a serde_json::Value, key: &str) -> (r: Option<&'a serde_json::Value>)
    ensures
        json_get(*v, key@) == match r {
            Some(m) => Some(*m),
            None => None,
        },
{
    v.get(key)
}

/// `serde_json::Value::as_u64`, named by `json_as_u64`.
#[verifier::external_body]
pub(crate) fn json_u64(v: &serde_json::Value) -> (r: Option<u64>)
    ensures
        r == json_as_u64(*v),
{
    v.as_u64()
}

/// `serde_json::Value::as_i64`, named by `json_as_i64`.
#[verifier::external_body]
pub(crate) fn json_i64(v: &serde_json::Value) -> (r: Option<i64>)
    ensures
        r == json_as_i64(*v),
{
    v.as_i64()
}

/// `serde_json::Value::as_str`, owned; named by `json_as_str`.
#[verifier::external_body]
pub(crate) fn json_string(v: &serde_json::Value) -> (r: Option<String>)
    ensures
        json_as_str(*v) == match r {
            Some(s) => Some(s@),
            None => None,
        },
{
    v.as_str().map(str::to_owned)
}

/// `serde_json::Value::is_object`, named by `json_is_obj`.
#[verifier::external_body]
pub(crate) fn json_is_object(v: &serde_json::Value) -> (r: bool)
    ensures
        r == json_is_obj(*v),
{
    v.is_object()
}

/// `serde_json::Value::clone`: an equal copy of the value.
#[verifier::external_body]
pub(crate) fn json_clone(v: &serde_json::Value) -> (r: serde_json::Value)
    ensures
        r == *v,
{
    v.clone()
}


/// The value `serde_json` parses from the JSON text `text`, if it is JSON
/// (`serde_json::from_str::<serde_json::Value>`).
pub uninterp spec fn json_parse_of(text: Seq<char>) -> Option<serde_json::Value>;

/// Whether a JSON value is `null` (`serde_json::Value::is_null`).
pub uninterp spec fn json_null(v: serde_json::Value) -> bool;

/// The compact JSON text of a value (its `Display`, the same text as
/// `serde_json::to_string`).
pub uninterp spec fn json_render(v: serde_json::Value) -> Seq<char>;

/// `serde_json::from_str::<serde_json::Value>(text)`: the parsed value,
/// named by `json_parse_of`, or the parse error's text, which is not
/// stated.
#[verifier::external_body]
pub(crate) fn json_parse(text: &str) -> (r: Result<serde_json::Value, String>)
    ensures
        json_parse_of(text@) == match r {
            Ok(v) => Some(v),
            Err(_) => None,
        },
{
    serde_json::from_str::<serde_json::Value>(text).map_err(|e| e.to_string())
}

/// `serde_json::Value::is_null`, named by `json_null`.
#[verifier::external_body]
pub(crate) fn json_is_null(v: &serde_json::Value) -> (r: bool)
    ensures
        r == json_null(*v),
{
    v.is_null()
}

/// The JSON text of a value (its `Display`), named by `json_render`.
#[verifier::external_body]
pub(crate) fn json_text(v: &serde_json::Value) -> (r: String)
    ensures
        r@ == json_render(*v),
{
    v.to_string()
}

/// `serde_json::Map::insert` on an object value: afterwards the member at
/// `key` is `member`, every other member is as before, and the value is
/// still an object.
#[verifier::external_body]
pub(crate) fn json_insert(v: &mut serde_json::Value, key: &str, member: serde_json::Value)
    requires
        json_is_obj(*old(v)),
    ensures
        json_is_obj(*final(v)),
        json_get(*final(v), key@) == Some(member),
        forall|k: Seq<char>| k != key@ ==> #[trigger] json_get(*final(v), k) == json_get(*old(v), k),
{
    if let serde_json::Value::Object(m) = v {
        m.insert(key.to_owned(), member);
    }
}

} // verus!
