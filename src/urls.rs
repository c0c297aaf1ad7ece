//! URL normalization and the relations that cache lookups use.

use vstd::prelude::*;
use crate::text::{count_char, is_prefix, replace_char, replace_all, starts_with, count_of};

verus! {

/// The serialization that `url::Url::parse` produces for `s`, or `None` where it rejects `s`.
pub uninterp spec fn url_serialization(s: Seq<char>) -> Option<Seq<char>>;

/// The host of the URL whose serialization is `s` (`url::Url::host_str`).
pub uninterp spec fn url_host(s: Seq<char>) -> Option<Seq<char>>;

/// The path of the URL whose serialization is `s` (`url::Url::path`).
pub uninterp spec fn url_path(s: Seq<char>) -> Seq<char>;

#[verifier::external_type_specification]
#[verifier::external_body]
pub struct ExUrl(url::Url);

/// A parsed absolute URL together with its serialization.
pub struct WebUrl {
    text: String,
    inner: url::Url,
}

impl WebUrl {
    /// The canonical serialization of this URL.
    pub closed spec fn spec_text(&self) -> Seq<char> {
        self.text@
    }

    /// Relies on `url::Url::parse`: it accepts or rejects `s` by `s` alone, and the
    /// serialization of what it accepts parses again to that same serialization.
    #[verifier::external_body]
    pub(crate) fn parse(s: &str) -> (r: Option<WebUrl>)
        ensures
            r.is_some() == url_serialization(s@).is_some(),
            r matches Some(w) ==> url_serialization(s@) == Some(w.spec_text()),
            r matches Some(w) ==> url_serialization(w.spec_text()) == Some(w.spec_text()),
    {
        match url::Url::parse(s) {
            Ok(u) => Some(WebUrl { text: String::from(u.as_str()), inner: u }),
            Err(_) => None,
        }
    }

    /// The serialization, as a string.
    pub fn as_text(&self) -> (r: &str)
        ensures
            r@ == self.spec_text(),
    {
        self.text.as_str()
    }

    /// Relies on `url::Url::host_str`: the host part of the serialization.
    #[verifier::external_body]
    pub(crate) fn host(&self) -> (r: Option<String>)
        ensures
            r.deep_view() == url_host(self.spec_text()),
    {
        self.inner.host_str().map(|h| h.to_string())
    }

    /// Relies on `url::Url::path`: the path part of the serialization.
    #[verifier::external_body]
    pub(crate) fn path(&self) -> (r: String)
        ensures
            r@ == url_path(self.spec_text()),
    {
        self.inner.path().to_string()
    }
}

/// Whether the trailing-slash rule applies: the text ends in `/` and that slash is
/// not the root path of an absolute URL (at least four slashes in all).
pub open spec fn strips_slash(t: Seq<char>) -> bool {
    t.len() > 0 && t.last() == '/' && count_of(t, '/') >= 4
}

/// `t` with one trailing slash removed where the rule applies.
pub open spec fn strip_trailing_slash(t: Seq<char>) -> Seq<char> {
    if strips_slash(t) {
        t.drop_last()
    } else {
        t
    }
}

/// The canonical form of a URL: its serialization without a non-root trailing slash;
/// text that does not parse as a URL is kept as it is.
pub open spec fn normalized(u: Seq<char>) -> Seq<char> {
    match url_serialization(u) {
        Some(t) => strip_trailing_slash(t),
        None => u,
    }
}

/// Either URL is a prefix of the other.
pub open spec fn prefix_related(a: Seq<char>, b: Seq<char>) -> bool {
    is_prefix(a, b) || is_prefix(b, a)
}

/// The name of a host bucket: the host with each `.` written as `_`, or `unknown`.
pub open spec fn host_bucket_of(host: Option<Seq<char>>) -> Seq<char> {
    match host {
        Some(h) => replace_char(h, '.', '_'),
        None => seq!['u', 'n', 'k', 'n', 'o', 'w', 'n'],
    }
}

/// The serialization of `u`, where there is one, parses again to itself, as
/// `WebUrl::parse` guarantees of every text that it accepts.
pub open spec fn serialization_stable(u: Seq<char>) -> bool {
    url_serialization(u) matches Some(t) ==> url_serialization(t) == Some(t)
}

/// A text that was cut from a serialization is canonical by itself: it parses to
/// itself or not at all, and it has no trailing slash left that the rule removes.
pub open spec fn cut_is_canonical(n: Seq<char>) -> bool {
    (url_serialization(n) is None || url_serialization(n) == Some(n)) && !strips_slash(n)
}

/// Normalizing twice gives what normalizing once gives. Where the normal form was
/// cut from the serialization (a trailing slash removed), it holds when the cut text
/// is canonical by itself; `https://a.example/x//` is a text where it is not.
pub proof fn lemma_normalize_idempotent(u: Seq<char>)
    requires
        serialization_stable(u),
        url_serialization(u) matches Some(t) ==> (strips_slash(t) ==> cut_is_canonical(t.drop_last())),
    ensures
        normalized(normalized(u)) == normalized(u),
{
    match url_serialization(u) {
        Some(t) => {
            if strips_slash(t) {
                let n = t.drop_last();
                assert(normalized(u) == n);
            } else {
                assert(normalized(u) == t);
                assert(url_serialization(t) == Some(t));
            }
        },
        None => {},
    }
}

/// Removes one trailing slash from `t` where the rule applies.
pub fn strip_trailing_slash_exec(t: &str) -> (r: String)
    ensures
        r@ == strip_trailing_slash(t@),
{
    let n = t.unicode_len();
    if n > 0 && t.get_char(n - 1) == '/' && count_char(t, '/') >= 4 {
        let s = t.substring_char(0, n - 1);
        String::from_str(s)
    } else {
        String::from_str(t)
    }
}

/// Brings a URL to its canonical form, the key of every cache lookup and write.
pub fn normalize_url_for_comparison(url: &str) -> (r: String)
    ensures
        r@ == normalized(url@),
        serialization_stable(url@),
{
    match WebUrl::parse(url) {
        Some(w) => strip_trailing_slash_exec(w.as_text()),
        None => String::from_str(url),
    }
}

/// Whether one of the two URLs is a prefix of the other.
pub fn urls_prefix_related(a: &str, b: &str) -> (r: bool)
    ensures
        r == prefix_related(a@, b@),
{
    starts_with(b, a) || starts_with(a, b)
}

/// The bucket name of a parsed URL's host.
pub fn host_bucket(w: &WebUrl) -> (r: String)
    ensures
        r@ == host_bucket_of(url_host(w.spec_text())),
{
    match w.host() {
        Some(h) => {
            proof {
                reveal_strlit("_");
            }
            replace_all(h.as_str(), '.', "_")
        },
        None => {
            let r = String::from_str("unknown");
            proof {
                reveal_strlit("unknown");
            }
            assert(r@ =~= seq!['u', 'n', 'k', 'n', 'o', 'w', 'n']);
            r
        },
    }
}

/// The host bucket of `url`, where it parses as a URL.
pub fn url_host_bucket(url: &str) -> (r: Option<String>)
    ensures
        match url_serialization(url@) {
            Some(t) => r.deep_view() == Some(host_bucket_of(url_host(t))),
            None => r is None,
        },
{
    match WebUrl::parse(url) {
        Some(w) => Some(host_bucket(&w)),
        None => None,
    }
}

} // verus!
