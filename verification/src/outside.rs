//! The calls into the `regex`, `deunicode`, `rand` and `serde_json` crates.
use vstd::prelude::*;

use crate::adapter_helpers;

verus! {

/// The non-overlapping matches of a regular expression in a text, from left to right; `None` for
/// an expression that is not well formed.
pub uninterp spec fn regex_matches(pattern: Seq<char>, text: Seq<char>) -> Option<Seq<Seq<char>>>;

/// `regex::Regex::find_iter`, on the expression that `regex::Regex::new` makes of `pattern`: the
/// texts of the matches depend on the pattern and the text alone.
#[verifier::external_body]
pub(crate) fn regex_find_iter(pattern: &str, text: &str) -> (r: Option<Vec<String>>)
    ensures
        r.deep_view() == regex_matches(pattern@, text@),
{
    match regex::Regex::new(pattern) {
        Ok(re) => Some(re.find_iter(text).map(|m| m.as_str().to_string()).collect()),
        Err(_) => None,
    }
}

/// Whether a regular expression matches somewhere in a text; `None` for an expression that is
/// not well formed.
pub uninterp spec fn regex_accepts(pattern: Seq<char>, text: Seq<char>) -> Option<bool>;

/// `regex::Regex::is_match`, on the expression that `regex::Regex::new` makes of `pattern`: the
/// answer depends on the pattern and the text alone.
#[verifier::external_body]
pub(crate) fn regex_is_match(pattern: &str, text: &str) -> (r: Option<bool>)
    ensures
        r == regex_accepts(pattern@, text@),
{
    match regex::Regex::new(pattern) {
        Ok(re) => Some(re.is_match(text)),
        Err(_) => None,
    }
}

/// `regex::Regex::replace_all` without a replacement, on the expression that `regex::Regex::new`
/// makes of the pattern of a tag: the text without its tags.
#[verifier::external_body]
pub(crate) fn regex_replace_all(pattern: &str, text: &str, replacement: &str) -> (r: Option<String>)
    requires
        pattern@ == adapter_helpers::TAG_PATTERN@,
        replacement@.len() == 0,
    ensures
        r.deep_view() == Some(adapter_helpers::without_tags(text@)),
{
    match regex::Regex::new(pattern) {
        Ok(re) => Some(re.replace_all(text, replacement).to_string()),
        Err(_) => None,
    }
}

/// The ASCII transliteration of a text.
pub uninterp spec fn transliteration(text: Seq<char>) -> Seq<char>;

/// `deunicode::deunicode`: the transliteration depends on the text alone.
#[verifier::external_body]
pub(crate) fn deunicode(text: &str) -> (r: String)
    ensures
        r@ == transliteration(text@),
{
    deunicode::deunicode(text)
}

/// The matches of a regular expression in a text, none where the expression is not well formed.
pub open spec fn found(pattern: Seq<char>, s: Seq<char>) -> Seq<Seq<char>> {
    match regex_matches(pattern, s) {
        Some(matches) => matches,
        None => Seq::empty(),
    }
}

/// The matches of a regular expression in a text, none where the expression is not well formed.
pub(crate) fn find(pattern: &str, s: &str) -> (r: Vec<String>)
    ensures
        r.deep_view() == found(pattern@, s@),
{
    match regex_find_iter(pattern, s) {
        Some(matches) => matches,
        None => {
            let r: Vec<String> = Vec::new();
            assert(r.deep_view() == Seq::<Seq<char>>::empty());
            r
        },
    }
}

/// `rand::Rng::random_range` on the generator of `rand::rng`: a number from the range `0` to
/// `max`, both included. Which one is left to chance.
#[verifier::external_body]
pub(crate) fn random_up_to(max: u64) -> (r: u64)
    ensures
        r <= max,
{
    rand::Rng::random_range(&mut rand::rng(), 0..=max)
}

/// The text of a JSON object with these fields.
pub uninterp spec fn object_text(entries: Seq<(Seq<char>, i64)>) -> Seq<char>;

/// `serde_json::Value::to_string`, on the object of the given fields: the text depends on the
/// names and the values alone.
#[verifier::external_body]
pub(crate) fn json_object(entries: &Vec<(String, i64)>) -> (r: String)
    ensures
        r@ == object_text(entries.deep_view()),
{
    let fields = entries.iter().map(|e| (e.0.clone(), serde_json::Value::from(e.1)));
    serde_json::Value::Object(fields.collect()).to_string()
}

/// The fields of the JSON object that a text is, each with the text that it is, if it is one;
/// `None` where the text is no JSON, or JSON other than an object.
pub uninterp spec fn json_fields(text: Seq<char>) -> Option<Seq<(Seq<char>, Option<Seq<char>>)>>;

/// `serde_json::from_str`, to a `serde_json::Value`: the names of the fields of an object, and
/// their texts, depend on the given text alone.
#[verifier::external_body]
pub(crate) fn json_from_str(text: &str) -> (r: Option<Vec<(String, Option<String>)>>)
    ensures
        r.deep_view() == json_fields(text@),
{
    match serde_json::from_str::<serde_json::Value>(text) {
        Ok(serde_json::Value::Object(fields)) => Some(
            fields.into_iter().map(|f| (f.0, f.1.as_str().map(|s| s.to_string()))).collect(),
        ),
        Ok(_) => None,
        Err(_) => None,
    }
}

} // verus!
