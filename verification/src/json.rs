//! JSON text of string lists (stored flag lists and recipient lists), through
//! serde_json.

use vstd::prelude::*;

verus! {

/// The character views of a list of strings.
pub open spec fn strings_view(v: Seq<String>) -> Seq<Seq<char>> {
    v.map_values(|s: String| s@)
}

/// What `serde_json::from_str::<Vec<String>>` gives for a text: the list of strings it
/// denotes, or `None` when the text is not a JSON array of strings.
pub uninterp spec fn json_string_list(text: Seq<char>) -> Option<Seq<Seq<char>>>;

/// The JSON text that `serde_json::to_string` writes for a list of strings.
pub uninterp spec fn json_of_string_list(items: Seq<Seq<char>>) -> Seq<char>;

/// Calls `serde_json::from_str::<Vec<String>>`. Claimed of it: it succeeds exactly
/// when `json_string_list` of the text is `Some`, and then returns that list; the
/// empty JSON array `[]` decodes to the empty list.
#[verifier::external_body]
pub(crate) fn decode_string_list(text: &str) -> (r: Option<Vec<String>>)
    ensures
        r is Some <==> json_string_list(text@) is Some,
        r matches Some(v) ==> json_string_list(text@) == Some(strings_view(v@)),
        text@ == "[]"@ ==> r is Some && r->0@.len() == 0,
{
    serde_json::from_str::<Vec<String>>(text).ok()
}

/// Calls `serde_json::to_string` on a list of strings, mapping a serializer error to
/// its message. Claimed of it: it succeeds (serde_json documents failure only for a
/// `Serialize` impl that fails or a map with non-string keys, and a list of strings is
/// neither), its text is `json_of_string_list` of the list (a function of the strings
/// alone), and decoding that text gives the list back.
#[verifier::external_body]
pub(crate) fn encode_string_list(items: &Vec<String>) -> (r: Result<String, String>)
    ensures
        r is Ok,
        r matches Ok(s) ==> s@ == json_of_string_list(strings_view(items@)),
        r matches Ok(s) ==> json_string_list(s@) == Some(strings_view(items@)),
{
    serde_json::to_string(items).map_err(|e| e.to_string())
}

/// What a language-model reply body holds: `None` when the text is not JSON, else
/// the string at `content[0].text` (`None` inside when that member is missing or not a
/// string), as `serde_json::Value` indexing and `as_str` find it.
pub uninterp spec fn json_reply_text(body: Seq<char>) -> Option<Option<Seq<char>>>;

/// Parses a reply body with `serde_json::from_str::<serde_json::Value>` and reads
/// `content[0].text` as a string. Claimed of it: it succeeds exactly when
/// `json_reply_text` of the body is `Some`, and then returns what that names; the
/// parse error message is left unsaid.
#[verifier::external_body]
pub(crate) fn reply_text(body: &str) -> (r: Result<Option<String>, String>)
    ensures
        r is Ok <==> json_reply_text(body@) is Some,
        r matches Ok(t) ==> json_reply_text(body@) == Some(
            match t {
                Some(s) => Some(s@),
                None => None::<Seq<char>>,
            },
        ),
{
    match serde_json::from_str::<serde_json::Value>(body) {
        Ok(v) => Ok(v["content"][0]["text"].as_str().map(String::from)),
        Err(e) => Err(e.to_string()),
    }
}

} // verus!
