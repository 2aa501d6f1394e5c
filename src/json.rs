use vstd::prelude::*;

verus! {

/// The text of a top-level string field of a JSON object, when `body` parses as
/// one and `key` holds a string there.
pub uninterp spec fn json_text_field(body: Seq<char>, key: Seq<char>) -> Option<Seq<char>>;

/// Whether `body` is well-formed JSON.
pub uninterp spec fn json_parses(body: Seq<char>) -> bool;

/// Relies on serde_json::from_str into a `Value`, then `Value::get` and
/// `Value::as_str`: the outcome depends on the two texts alone.
#[verifier::external_body]
pub(crate) fn text_field(body: &str, key: &str) -> (r: Option<String>)
    ensures
        r matches Some(t) ==> json_text_field(body@, key@) == Some(t@),
        r is None ==> json_text_field(body@, key@) is None,
{
    let v: serde_json::Value = serde_json::from_str(body).ok()?;
    v.get(key).and_then(|f| f.as_str()).map(|s| s.to_string())
}

/// The text of a top-level numeric field of a JSON object, as serde_json writes
/// that number back.
pub uninterp spec fn json_number_text(body: Seq<char>, key: Seq<char>) -> Option<Seq<char>>;

/// Relies on serde_json::from_str into a `Value`, then `Value::get`,
/// `Value::as_number` and the `Display` of `Number`.
#[verifier::external_body]
pub(crate) fn number_field(body: &str, key: &str) -> (r: Option<String>)
    ensures
        r matches Some(t) ==> json_number_text(body@, key@) == Some(t@),
        r is None ==> json_number_text(body@, key@) is None,
{
    let v: serde_json::Value = serde_json::from_str(body).ok()?;
    v.get(key).and_then(|f| f.as_number()).map(|n| n.to_string())
}

/// Relies on serde_json::from_str into a `Value`: `Ok` exactly for well-formed JSON.
#[verifier::external_body]
pub(crate) fn parses(body: &str) -> (r: bool)
    ensures
        r == json_parses(body@),
{
    serde_json::from_str::<serde_json::Value>(body).is_ok()
}

} // verus!
