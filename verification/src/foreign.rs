//! The calls that the library makes into the `regex`, `scraper` and
//! `serde_json` crates. Each is named by what it returns for its arguments;
//! Verus takes these contracts on trust.

use vstd::prelude::*;

verus! {

/// What `regex` reports for the leftmost-first match of `pattern` in
/// `haystack`: `None` when there is no match (or when `pattern` does not
/// compile), otherwise the text of every capture group, group 0 being the
/// whole match and `None` standing for a group that took no part in it.
pub uninterp spec fn regex_captures_of(pattern: Seq<char>, haystack: Seq<char>) -> Option<
    Seq<Option<Seq<char>>>,
>;

/// What `scraper` yields for an HTML document: the value of attribute
/// `attribute` on the first element that the CSS selector `selector` matches,
/// `None` when no element matches, the first one lacks the attribute, or the
/// selector does not parse.
pub uninterp spec fn html_first_attribute_of(
    document: Seq<char>,
    selector: Seq<char>,
    attribute: Seq<char>,
) -> Option<Seq<char>>;

/// The compact JSON text that `serde_json` writes for an object whose
/// members are the given (name, string value) pairs.
pub uninterp spec fn json_object_text(pairs: Seq<(Seq<char>, Seq<char>)>) -> Seq<char>;

/// Compiles `pattern` with `regex::Regex::new` and runs
/// `regex::Regex::captures` on `haystack`, handing back the text of each
/// group (`regex::Captures::iter`). Claimed: the result is
/// `regex_captures_of(pattern, haystack)`; nothing is claimed of what that is.
/// A pattern that does not compile gives `None`, as no match does.
#[verifier::external_body]
pub(crate) fn regex_captures(pattern: &str, haystack: &str) -> (res: Option<Vec<Option<String>>>)
    ensures
        res.deep_view() == regex_captures_of(pattern@, haystack@),
{
    let re = regex::Regex::new(pattern).ok()?;
    re.captures(haystack).map(
        |caps| caps.iter().map(|m| m.map(|m| m.as_str().to_string())).collect(),
    )
}

/// Parses `document` with `scraper::Html::parse_document`, `selector` with
/// `scraper::Selector::parse`, takes the first element of
/// `scraper::Html::select` and reads `attribute` with
/// `scraper::node::Element::attr`. Claimed: the result is
/// `html_first_attribute_of(document, selector, attribute)`.
#[verifier::external_body]
pub(crate) fn html_first_attribute(document: &str, selector: &str, attribute: &str) -> (res:
    Option<String>)
    ensures
        res.deep_view() == html_first_attribute_of(document@, selector@, attribute@),
{
    let selector = scraper::Selector::parse(selector).ok()?;
    let html = scraper::Html::parse_document(document);
    let first = html.select(&selector).next()?;
    first.value().attr(attribute).map(|v| v.to_string())
}

/// Builds a `serde_json::Value::Object` from the pairs (`serde_json::Map`
/// collected from them, each value a `serde_json::Value::String`) and writes
/// it with `serde_json::Value`'s `Display`, which is compact JSON. Claimed: the
/// text is `json_object_text(pairs)`.
#[verifier::external_body]
pub(crate) fn json_object(pairs: &Vec<(String, String)>) -> (res: String)
    ensures
        res@ == json_object_text(pairs.deep_view()),
{
    let map: serde_json::Map<String, serde_json::Value> = pairs.iter().map(
        |(k, v)| (k.clone(), serde_json::Value::String(v.clone())),
    ).collect();
    serde_json::Value::Object(map).to_string()
}

} // verus!
