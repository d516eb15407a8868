//! Reading one member of a JSON text.

use vstd::prelude::*;

verus! {

/// The text that the member `member` of the JSON object `body` holds; `None` if
/// `body` is not JSON, is no object, has no such member, or the member is no text.
pub uninterp spec fn json_text(body: Seq<char>, member: Seq<char>) -> Option<Seq<char>>;

/// `serde_json::from_str` into a `serde_json::Value`, and of that `Value::get` and
/// `Value::as_str`: the text that one member of an object holds.
#[verifier::external_body]
pub(crate) fn json_text_member(body: &str, member: &str) -> (out: Option<String>)
    ensures
        match out {
            Some(s) => json_text(body@, member@) == Some(s@),
            None => json_text(body@, member@) is None,
        },
{
    let value: serde_json::Value = serde_json::from_str(body).ok()?;
    value.get(member)?.as_str().map(String::from)
}

} // verus!
