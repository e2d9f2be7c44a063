//! The few places where text is written or read as JSON. The JSON itself is
//! the work of `serde_json`; what it returns is named here, not restated.

use vstd::prelude::*;
use crate::text::{opt_text, texts};

verus! {

/// Names the JSON text that `serde_json::to_string` gives a list of strings:
/// `Some` of the text where it gives one, `None` where it reports an error.
pub uninterp spec fn labels_json(labels: Seq<Seq<char>>) -> Option<Seq<char>>;

/// `serde_json::to_string` on a list of strings. The text is a function of the
/// strings alone; nothing more is claimed of it.
#[verifier::external_body]
pub(crate) fn serialize_labels(labels: &Vec<String>) -> (json: Option<String>)
    ensures
        opt_text(json) == labels_json(texts(labels@)),
{
    serde_json::to_string(labels).ok()
}

/// Names the JSON text that `serde_json::to_string` gives a string: the
/// string in quotes with its characters escaped, where it gives one.
pub uninterp spec fn json_quoted(s: Seq<char>) -> Option<Seq<char>>;

/// `serde_json::to_string` on a string. The text is a function of the string
/// alone; nothing more is claimed of it.
#[verifier::external_body]
pub(crate) fn quote_json(s: &str) -> (json: Option<String>)
    ensures
        opt_text(json) == json_quoted(s@),
{
    serde_json::to_string(s).ok()
}

/// What reading one member of a JSON document as a string gives: the error
/// text where the document is no JSON, else the string, or `None` where the
/// document is no object, has no such member, or the member is no string.
pub uninterp spec fn text_at(doc: Seq<char>, key: Seq<char>) -> Result<Option<Seq<char>>, Seq<char>>;

/// What reading one member of a JSON document as an unsigned number gives.
pub uninterp spec fn number_at(doc: Seq<char>, key: Seq<char>) -> Result<Option<u64>, Seq<char>>;

/// What reading one member of a JSON document as a list gives: for each
/// element of the list its string, or `None` where it is no string.
pub uninterp spec fn texts_at(doc: Seq<char>, key: Seq<char>) -> Result<
    Option<Seq<Option<Seq<char>>>>,
    Seq<char>,
>;

/// The characters of the strings of a list of optional strings.
pub open spec fn opt_texts(list: Seq<Option<String>>) -> Seq<Option<Seq<char>>> {
    list.map_values(|x: Option<String>| opt_text(x))
}

/// The view of what `json_text_at` returns.
pub open spec fn text_read(r: Result<Option<String>, String>) -> Result<Option<Seq<char>>, Seq<char>> {
    match r {
        Ok(x) => Ok(opt_text(x)),
        Err(e) => Err(e@),
    }
}

/// The view of what `json_number_at` returns.
pub open spec fn number_read(r: Result<Option<u64>, String>) -> Result<Option<u64>, Seq<char>> {
    match r {
        Ok(x) => Ok(x),
        Err(e) => Err(e@),
    }
}

/// The view of what `json_texts_at` returns.
pub open spec fn texts_read(r: Result<Option<Vec<Option<String>>>, String>) -> Result<
    Option<Seq<Option<Seq<char>>>>,
    Seq<char>,
> {
    match r {
        Ok(Some(list)) => Ok(Some(opt_texts(list@))),
        Ok(None) => Ok(None),
        Err(e) => Err(e@),
    }
}

/// `serde_json::from_str` to a `Value`, then the member `key` of it read with
/// `as_str`. What comes back is a function of the two texts alone.
#[verifier::external_body]
pub(crate) fn json_text_at(doc: &str, key: &str) -> (r: Result<Option<String>, String>)
    ensures
        text_read(r) == text_at(doc@, key@),
{
    match serde_json::from_str::<serde_json::Value>(doc) {
        Ok(v) => Ok(v[key].as_str().map(String::from)),
        Err(e) => Err(e.to_string()),
    }
}

/// `serde_json::from_str` to a `Value`, then the member `key` of it read with
/// `as_u64`. What comes back is a function of the two texts alone.
#[verifier::external_body]
pub(crate) fn json_number_at(doc: &str, key: &str) -> (r: Result<Option<u64>, String>)
    ensures
        number_read(r) == number_at(doc@, key@),
{
    match serde_json::from_str::<serde_json::Value>(doc) {
        Ok(v) => Ok(v[key].as_u64()),
        Err(e) => Err(e.to_string()),
    }
}

/// `serde_json::from_str` to a `Value`, then the member `key` of it read with
/// `as_array` and each element with `as_str`. What comes back is a function
/// of the two texts alone.
#[verifier::external_body]
pub(crate) fn json_texts_at(doc: &str, key: &str) -> (r: Result<Option<Vec<Option<String>>>, String>)
    ensures
        texts_read(r) == texts_at(doc@, key@),
{
    match serde_json::from_str::<serde_json::Value>(doc) {
        Ok(v) => Ok(
            v[key].as_array().map(|list| list.iter().map(|x| x.as_str().map(String::from)).collect()),
        ),
        Err(e) => Err(e.to_string()),
    }
}

} // verus!
