//! The origin marker that a saved page carries: a `data-base-url` attribute whose
//! value is the URL the page was captured from.

use vstd::prelude::*;

verus! {

/// `regex::Regex::new` accepts the pattern `p`.
pub uninterp spec fn regex_compiles(p: Seq<char>) -> bool;

/// The text of capture group 1 of the leftmost match of pattern `p` in `hay`
/// (`regex::Regex::captures`), if there is a match and the group took part in it.
pub uninterp spec fn first_capture(p: Seq<char>, hay: Seq<char>) -> Option<Seq<char>>;

#[verifier::external_type_specification]
#[verifier::external_body]
pub struct ExRegex(regex::Regex);

/// A compiled regular expression together with its pattern.
pub struct Pattern {
    source: String,
    re: regex::Regex,
}

impl Pattern {
    pub closed spec fn src(&self) -> Seq<char> {
        self.source@
    }

    /// Relies on `regex::Regex::new`: it accepts or rejects by the pattern alone.
    #[verifier::external_body]
    pub(crate) fn new(p: &str) -> (r: Option<Pattern>)
        ensures
            r.is_some() == regex_compiles(p@),
            r matches Some(c) ==> c.src() == p@,
    {
        match regex::Regex::new(p) {
            Ok(re) => Some(Pattern { source: p.to_string(), re }),
            Err(_) => None,
        }
    }

    /// Relies on `regex::Regex::captures`: group 1 of the leftmost match in `hay`.
    #[verifier::external_body]
    pub(crate) fn capture(&self, hay: &str) -> (r: Option<String>)
        ensures
            r.deep_view() == first_capture(self.src(), hay@),
    {
        self.re.captures(hay).and_then(|c| c.get(1)).map(|m| m.as_str().to_string())
    }
}

/// The marker's value in quotes.
pub open spec fn quoted_pattern() -> Seq<char> {
    "data-base-url\\s*=\\s*[\"']([^\"']+)[\"']"@
}

/// The marker's value without quotes.
pub open spec fn bare_pattern() -> Seq<char> {
    "data-base-url\\s*=\\s*([^\\s>]+)"@
}

/// Group 1 of `p` in `html`, where `p` compiles.
pub open spec fn try_pattern(p: Seq<char>, html: Seq<char>) -> Option<Seq<char>> {
    if regex_compiles(p) {
        first_capture(p, html)
    } else {
        None
    }
}

/// The origin URL that a saved page names: the quoted form first, then the bare one.
pub open spec fn origin_marker(html: Seq<char>) -> Option<Seq<char>> {
    match try_pattern(quoted_pattern(), html) {
        Some(v) => Some(v),
        None => try_pattern(bare_pattern(), html),
    }
}

fn try_exec(p: &str, html: &str) -> (r: Option<String>)
    ensures
        r.deep_view() == try_pattern(p@, html@),
{
    match Pattern::new(p) {
        Some(re) => re.capture(html),
        None => None,
    }
}

/// Reads the origin marker out of a saved page.
pub fn extract_data_base_url(html: &str) -> (r: Option<String>)
    ensures
        r.deep_view() == origin_marker(html@),
{
    match try_exec("data-base-url\\s*=\\s*[\"']([^\"']+)[\"']", html) {
        Some(v) => Some(v),
        None => try_exec("data-base-url\\s*=\\s*([^\\s>]+)", html),
    }
}

} // verus!
