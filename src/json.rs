use vstd::prelude::*;

verus! {

/// The string that serde_json finds under `key` in the JSON object `text`.
pub uninterp spec fn json_str_at(text: Seq<char>, key: Seq<char>) -> Option<Seq<char>>;

/// The unsigned integer that serde_json finds under `key` in the JSON object `text`.
pub uninterp spec fn json_u64_at(text: Seq<char>, key: Seq<char>) -> Option<u64>;

/// The array of arrays that serde_json finds under `key` in the JSON object
/// `text`: each element that is an array, as its string elements.
pub uninterp spec fn json_rows_at(text: Seq<char>, key: Seq<char>) -> Option<
    Seq<Option<Seq<Option<Seq<char>>>>>,
>;

/// Relies on `serde_json::from_str` and `Value::get`: the member `key` of the
/// parsed object, when it is a JSON string.
#[verifier::external_body]
pub(crate) fn json_string_member(text: &str, key: &str) -> (r: Option<String>)
    ensures
        r.deep_view() == json_str_at(text@, key@),
{
    let v: serde_json::Value = match serde_json::from_str(text) {
        Ok(v) => v,
        Err(_) => return None,
    };
    match v.get(key) {
        Some(serde_json::Value::String(s)) => Some(s.clone()),
        _ => None,
    }
}

/// Relies on `serde_json::from_str`, `Value::get` and `Value::as_u64`: the
/// member `key` of the parsed object, when it is a non-negative integer.
#[verifier::external_body]
pub(crate) fn json_u64_member(text: &str, key: &str) -> (r: Option<u64>)
    ensures
        r == json_u64_at(text@, key@),
{
    let v: serde_json::Value = match serde_json::from_str(text) {
        Ok(v) => v,
        Err(_) => return None,
    };
    match v.get(key) {
        Some(x) => x.as_u64(),
        None => None,
    }
}

/// Relies on `serde_json::from_str`, `Value::get` and `Value::as_array`: the
/// member `key` of the parsed object, when it is an array; each element that
/// is an array is given with its string elements (`None` for the others).
#[verifier::external_body]
pub(crate) fn json_rows_member(text: &str, key: &str) -> (r: Option<Vec<Option<Vec<Option<String>>>>>)
    ensures
        r.deep_view() == json_rows_at(text@, key@),
{
    let v: serde_json::Value = match serde_json::from_str(text) {
        Ok(v) => v,
        Err(_) => return None,
    };
    let rows = v.get(key)?.as_array()?;
    Some(rows.iter().map(|row| row.as_array().map(|items| {
        items.iter().map(|x| x.as_str().map(|s| s.to_string())).collect()
    })).collect())
}

} // verus!
