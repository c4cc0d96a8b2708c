//! JSON text of the request payloads: each string is quoted by serde_json,
//! and the objects around the strings are framed here.
use vstd::prelude::*;

verus! {

/// The JSON string literal that serde_json writes for the characters `s`.
pub uninterp spec fn json_string_of(s: Seq<char>) -> Seq<char>;

/// Relies on `serde_json::to_string` on a `str`: the quoted and escaped JSON
/// string literal, which depends on the characters alone. Serialising a
/// string into memory does not fail.
#[verifier::external_body]
fn json_string(s: &str) -> (r: String)
    ensures
        r@ == json_string_of(s@),
{
    serde_json::to_string(s).unwrap_or_default()
}

/// A JSON object of two string members, in the order given.
pub open spec fn json_object2(k1: Seq<char>, v1: Seq<char>, k2: Seq<char>, v2: Seq<char>) -> Seq<
    char,
> {
    "{"@ + json_string_of(k1) + ":"@ + json_string_of(v1) + ","@ + json_string_of(k2) + ":"@
        + json_string_of(v2) + "}"@
}

/// Writes `{k1: v1, k2: v2}` as compact JSON text, keeping the member order.
pub fn json_object2_text(k1: &str, v1: &str, k2: &str, v2: &str) -> (r: String)
    ensures
        r@ == json_object2(k1@, v1@, k2@, v2@),
{
    proof {
        reveal_strlit("{");
        reveal_strlit(":");
        reveal_strlit(",");
        reveal_strlit("}");
    }
    let mut out = String::from_str("{");
    out.append(json_string(k1).as_str());
    out.append(":");
    out.append(json_string(v1).as_str());
    out.append(",");
    out.append(json_string(k2).as_str());
    out.append(":");
    out.append(json_string(v2).as_str());
    out.append("}");
    out
}

} // verus!
