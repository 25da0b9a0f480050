//! Calls into the regex, html-escape, url and serde_json crates and into
//! `std::time`, with what the library assumes of them.

use vstd::prelude::*;
use crate::parser::opt_text;
use crate::text::texts;

verus! {

/// What `regex::Regex::new(pattern)` followed by `captures(text)` yields for
/// capture group `group`: the text the group matched in the leftmost-first
/// match, or nothing when the pattern does not compile, does not match, or the
/// group took no part in the match.
pub uninterp spec fn regex_group(pattern: Seq<char>, text: Seq<char>, group: usize) -> Option<Seq<char>>;

/// Compiles `pattern` with `regex::Regex::new` and returns capture group
/// `group` of the first match in `text`, by `Regex::captures` and
/// `Captures::get`. Assumed: the result is `regex_group` of the arguments.
#[verifier::external_body]
pub(crate) fn regex_capture(pattern: &str, text: &str, group: usize) -> (r: Option<String>)
    ensures
        opt_text(r) == regex_group(pattern@, text@, group),
{
    let re = regex::Regex::new(pattern).ok()?;
    let caps = re.captures(text)?;
    caps.get(group).map(|m| m.as_str().to_string())
}

/// What `html_escape::decode_html_entities` returns for a text: the text
/// with its HTML entities (`&quot;`, `&amp;`, `&#39;`, ...) decoded.
pub uninterp spec fn html_decoded(text: Seq<char>) -> Seq<char>;

/// Calls `html_escape::decode_html_entities`. Assumed: the result is
/// `html_decoded` of the argument.
#[verifier::external_body]
pub(crate) fn decode_html_entities(text: &str) -> (r: String)
    ensures
        r@ == html_decoded(text@),
{
    html_escape::decode_html_entities(text).into_owned()
}

/// What `std::time::Duration::from_secs` returns for a number of seconds.
pub uninterp spec fn duration_of_secs(secs: u64) -> std::time::Duration;

/// Calls `std::time::Duration::from_secs`. Assumed: the result is
/// `duration_of_secs` of the argument.
#[verifier::external_body]
pub(crate) fn secs(n: u64) -> (r: std::time::Duration)
    ensures
        r == duration_of_secs(n),
{
    std::time::Duration::from_secs(n)
}

/// What `url::Url::parse` makes of a text: `None` when it is no valid URL,
/// else the parsed URL's scheme and host (`Url::scheme`, `Url::host_str`).
pub uninterp spec fn url_parts(url: Seq<char>) -> Option<(Seq<char>, Option<Seq<char>>)>;

/// Parses `url` with `url::Url::parse` and reads its scheme and host.
/// Assumed: the result is `url_parts` of the argument.
#[verifier::external_body]
pub(crate) fn parse_url(url: &str) -> (r: Option<(String, Option<String>)>)
    ensures
        match (r, url_parts(url@)) {
            (Some((s, h)), Some((ps, ph))) => s@ == ps && opt_text(h) == ph,
            (None, None) => true,
            _ => false,
        },
{
    let u = url::Url::parse(url).ok()?;
    Some((u.scheme().to_string(), u.host_str().map(|h| h.to_string())))
}

/// Whether `serde_json::from_str::<serde_json::Value>` accepts a text, that
/// is, whether the text is one JSON value (with white space around it).
pub uninterp spec fn json_valid(text: Seq<char>) -> bool;

/// Tries `serde_json::from_str::<serde_json::Value>` on `text` and reports
/// whether it succeeded. Assumed: the result is `json_valid` of the argument.
#[verifier::external_body]
pub(crate) fn json_parses(text: &str) -> (r: bool)
    ensures
        r == json_valid(text@),
{
    serde_json::from_str::<serde_json::Value>(text).is_ok()
}

/// What `serde_json` makes of a JSON text parsed with
/// `from_str::<serde_json::Value>`: `(true, texts)` for an array, with the
/// compact text (`to_string`) of each of its items; `(false, [text])` for
/// any other value, with its own compact text; nothing when the text does
/// not parse.
pub uninterp spec fn json_top_level(text: Seq<char>) -> Option<(bool, Seq<Seq<char>>)>;

/// A parsed JSON text, written back compactly: the items of an array, or
/// the whole value when it is no array.
pub enum JsonTopLevel {
    Items(Vec<String>),
    Whole(String),
}

/// Parses `text` with `serde_json::from_str::<serde_json::Value>` and tells
/// an array (the compact texts of its items) from any other value (its
/// compact text). Assumed: the result is `json_top_level` of the argument,
/// and it is there exactly when the same parse that `json_parses` makes
/// succeeds.
#[verifier::external_body]
pub(crate) fn parse_top_level(text: &str) -> (r: Option<JsonTopLevel>)
    ensures
        r is Some <==> json_valid(text@),
        match r {
            Some(JsonTopLevel::Items(v)) => json_top_level(text@) == Some((true, texts(v@))),
            Some(JsonTopLevel::Whole(w)) => json_top_level(text@) == Some((false, seq![w@])),
            None => json_top_level(text@) is None,
        },
{
    match serde_json::from_str::<serde_json::Value>(text) {
        Ok(serde_json::Value::Array(items)) => Some(JsonTopLevel::Items(items.iter().map(|i| i.to_string()).collect())),
        Ok(other) => Some(JsonTopLevel::Whole(other.to_string())),
        Err(_) => None,
    }
}

} // verus!
