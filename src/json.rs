//! JSON at the edge of the protocol: reading the members of a request's
//! object body, and writing the one-member object `{key: value}` that
//! successful reads and writes answer with.
use vstd::prelude::*;
use vstd::string::*;

verus! {

/// The members of the JSON object that `text` holds, each as its key and the
/// compact JSON text of its value; `None` when `text` is not a JSON object.
pub uninterp spec fn json_object_members(text: Seq<char>) -> Option<Seq<(Seq<char>, Seq<char>)>>;

/// The JSON string literal for `s`: quoted, with the characters that JSON
/// requires escaped.
pub uninterp spec fn json_string_of(s: Seq<char>) -> Seq<char>;

/// The members as character sequences.
pub open spec fn members_view(v: Seq<(String, String)>) -> Seq<(Seq<char>, Seq<char>)> {
    v.map_values(|e: (String, String)| (e.0@, e.1@))
}

/// Relies on `serde_json::from_str` into a `serde_json::Map<String, Value>`,
/// which succeeds exactly on JSON object text, and on `Value`'s `Display`,
/// which writes a value as compact JSON.
#[verifier::external_body]
pub(crate) fn parse_object(text: &str) -> (r: Option<Vec<(String, String)>>)
    ensures
        r is Some <==> json_object_members(text@) is Some,
        r matches Some(v) ==> members_view(v@) == json_object_members(text@)->0,
{
    match serde_json::from_str::<serde_json::Map<String, serde_json::Value>>(text) {
        Ok(m) => Some(m.into_iter().map(|(k, v)| (k, v.to_string())).collect()),
        Err(_) => None,
    }
}

/// Relies on `serde_json::to_string` of a `str`: the quoted, escaped JSON
/// string (serialising a `str` cannot fail).
#[verifier::external_body]
fn quote(s: &str) -> (r: String)
    ensures
        r@ == json_string_of(s@),
{
    serde_json::to_string(s).unwrap_or_default()
}

/// The body `{"key":value}` for one member, `value` being JSON text.
pub open spec fn entry_body(key: Seq<char>, value: Seq<char>) -> Seq<char> {
    "{"@ + json_string_of(key) + ":"@ + value + "}"@
}

/// Writes the one-member object for `key` and the JSON text `value`.
pub fn entry_json(key: &str, value: &str) -> (r: String)
    ensures
        r@ == entry_body(key@, value@),
{
    let quoted = quote(key);
    let mut out = String::from_str("{");
    out.append(quoted.as_str());
    out.append(":");
    out.append(value);
    out.append("}");
    out
}

} // verus!
