//! The one place where the library reads JSON, through serde_json.
use vstd::prelude::*;

verus! {

/// What reading `doc` as a JSON document gives for member `key`: `None` where
/// `doc` is not a JSON document; `Some(None)` where it has no member `key`
/// holding a string; `Some(Some(t))` where that member holds the string `t`.
pub uninterp spec fn json_text_member(doc: Seq<char>, key: Seq<char>) -> Option<Option<Seq<char>>>;

/// The view of an optional string.
pub open spec fn opt_view(o: Option<String>) -> Option<Seq<char>> {
    match o {
        Some(s) => Some(s@),
        None => None,
    }
}

/// Relies on `serde_json::from_str` into a `serde_json::Value`, then on
/// `Value::get` and `Value::as_str`: the text of a string member of a JSON
/// object, or the parser's message where `doc` is not JSON.
#[verifier::external_body]
pub(crate) fn text_member(doc: &str, key: &str) -> (r: Result<Option<String>, String>)
    ensures
        r is Err <==> json_text_member(doc@, key@) is None,
        r matches Ok(m) ==> json_text_member(doc@, key@) == Some(opt_view(m)),
{
    match serde_json::from_str::<serde_json::Value>(doc) {
        Ok(v) => Ok(v.get(key).and_then(|m| m.as_str()).map(|t| t.to_string())),
        Err(e) => Err(e.to_string()),
    }
}

} // verus!
