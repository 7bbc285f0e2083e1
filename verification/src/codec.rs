//! JSON encoding and decoding of target-URL lists.
//!
//! A scan configuration stores its ordered list of target URLs as one JSON
//! text. Encoding and decoding are delegated to `serde_json`; the two
//! uninterpreted names below stand for what those calls return, and the
//! round trip between them is the one fact the rest of the library builds
//! on. A text that does not decode degrades to an empty target list — the
//! deliberate leniency policy of the dispatcher — captured by
//! [`spec_targets`].

use vstd::prelude::*;

verus! {

/// The JSON text that encodes an ordered list of URL strings.
pub uninterp spec fn json_of_urls(urls: Seq<Seq<char>>) -> Seq<char>;

/// The ordered list of URL strings that a JSON text decodes to, or `None`
/// where the text is not a JSON array of strings.
pub uninterp spec fn json_url_list(text: Seq<char>) -> Option<Seq<Seq<char>>>;

/// The target list a dispatcher derives from a stored URL text: the decoded
/// list, or the empty list where the text does not decode (leniency policy).
pub open spec fn spec_targets(text: Seq<char>) -> Seq<Seq<char>> {
    match json_url_list(text) {
        Some(urls) => urls,
        None => Seq::empty(),
    }
}

/// Relies on `serde_json::to_string::<Vec<String>>`: the encoding depends on
/// the list alone, and encoding a vector of strings never fails; decoding
/// the encoded text yields the original list back.
#[verifier::external_body]
pub fn encode_url_list(urls: &Vec<String>) -> (r: String)
    ensures
        r@ == json_of_urls(urls.deep_view()),
        json_url_list(r@) == Some(urls.deep_view()),
{
    serde_json::to_string(urls).unwrap()
}

/// Relies on `serde_json::from_str::<Vec<String>>`: the outcome depends on
/// the text alone; a text that is not a JSON array of strings yields `None`.
#[verifier::external_body]
pub fn decode_url_list(text: &String) -> (r: Option<Vec<String>>)
    ensures
        r.deep_view() == json_url_list(text@),
{
    serde_json::from_str(text.as_str()).ok()
}

} // verus!
