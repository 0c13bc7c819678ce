//! The stored form of the command history: a JSON array of strings.

use crate::lines::texts;
use vstd::prelude::*;

verus! {

#[verifier::external_type_specification]
#[verifier::external_body]
pub struct ExJsonError(serde_json::Error);

/// The strings of a JSON document that is an array of strings; `None` for
/// any other text.
pub uninterp spec fn json_strings_of(text: Seq<char>) -> Option<Seq<Seq<char>>>;

/// The pretty-printed JSON array of the given strings.
pub uninterp spec fn json_pretty_of(items: Seq<Seq<char>>) -> Seq<char>;

/// Relies on `serde_json::from_str` into `Vec<String>`: succeeds exactly on a
/// JSON array of strings, and gives its strings in order.
#[verifier::external_body]
fn parse_strings(text: &str) -> (r: Result<Vec<String>, serde_json::Error>)
    ensures
        r is Ok <==> json_strings_of(text@) is Some,
        r matches Ok(v) ==> json_strings_of(text@) == Some(texts(v@)),
{
    serde_json::from_str::<Vec<String>>(text)
}

/// Relies on `serde_json::to_string_pretty` on a `Vec<String>`: the
/// pretty-printed array. It fails only when a `Serialize` impl fails or a map
/// has keys that are not strings, neither of which a list of strings has.
#[verifier::external_body]
fn pretty_strings(items: &Vec<String>) -> (r: Result<String, serde_json::Error>)
    ensures
        r is Ok,
        r matches Ok(s) ==> s@ == json_pretty_of(texts(items@)),
{
    serde_json::to_string_pretty(items)
}

/// The history stored in `text`; a text that is not a JSON array of strings
/// gives an empty history.
pub fn decode_history(text: &str) -> (r: Vec<String>)
    ensures
        texts(r@) == match json_strings_of(text@) {
            Some(h) => h,
            None => Seq::<Seq<char>>::empty(),
        },
{
    match parse_strings(text) {
        Ok(v) => v,
        Err(_) => {
            let r: Vec<String> = Vec::new();
            proof {
                assert(texts(r@) =~= Seq::<Seq<char>>::empty());
            }
            r
        },
    }
}

/// The text that stores `history`.
pub fn encode_history(history: &Vec<String>) -> (r: String)
    ensures
        r@ == json_pretty_of(texts(history@)),
{
    match pretty_strings(history) {
        Ok(s) => s,
        Err(_) => String::new(),
    }
}

} // verus!
