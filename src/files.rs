//! Names and limits of the saved-pages area: relative paths cleaned of anything that
//! could leave the area, resource file names, and the size bounds of captures.

use vstd::prelude::*;
use crate::text::same_text;

verus! {

/// `char::is_alphanumeric` holds of `c`.
pub uninterp spec fn char_alphanumeric(c: char) -> bool;

/// Relies on `char::is_alphanumeric`: the Unicode Alphabetic or Numeric property.
#[verifier::external_body]
fn is_alphanumeric(c: char) -> (r: bool)
    ensures
        r == char_alphanumeric(c),
{
    c.is_alphanumeric()
}

/// A character that a saved file name may hold.
pub open spec fn name_char(c: char) -> bool {
    char_alphanumeric(c) || c == '.' || c == '_' || c == '-'
}

fn is_name_char(c: char) -> (r: bool)
    ensures
        r == name_char(c),
{
    is_alphanumeric(c) || c == '.' || c == '_' || c == '-'
}

/// A path separator, either way round.
pub open spec fn is_separator(c: char) -> bool {
    c == '/' || c == '\\'
}

/// `part` names a real entry: not empty, not `.`, not `..`.
pub open spec fn real_part(part: Seq<char>) -> bool {
    part.len() != 0 && part != seq!['.'] && part != seq!['.', '.']
}

/// `out` with the cleaned part `part` joined on where it names a real entry.
pub open spec fn flush(out: Seq<char>, part: Seq<char>) -> Seq<char> {
    if !real_part(part) {
        out
    } else if out.len() == 0 {
        part
    } else {
        out + seq!['/'] + part
    }
}

/// The joined path so far and the cleaned current part, after reading `s`.
pub open spec fn path_scan(s: Seq<char>) -> (Seq<char>, Seq<char>)
    decreases s.len(),
{
    if s.len() == 0 {
        (Seq::empty(), Seq::empty())
    } else {
        let (out, part) = path_scan(s.drop_last());
        let c = s.last();
        if is_separator(c) {
            (flush(out, part), Seq::empty())
        } else if name_char(c) {
            (out, part.push(c))
        } else {
            (out, part)
        }
    }
}

/// A relative path with both separators read as `/`, each part kept to name
/// characters, and empty, `.` and `..` parts left out, joined by `/`.
pub open spec fn sanitized_path(s: Seq<char>) -> Seq<char> {
    flush(path_scan(s).0, path_scan(s).1)
}

fn flush_exec(out: String, part: &str) -> (r: String)
    ensures
        r@ == flush(out@, part@),
{
    proof {
        reveal_strlit(".");
        reveal_strlit("..");
        reveal_strlit("/");
    }
    assert("."@ =~= seq!['.']);
    assert(".."@ =~= seq!['.', '.']);
    if part.unicode_len() == 0 || same_text(part, ".") || same_text(part, "..") {
        out
    } else if out.unicode_len() == 0 {
        String::from_str(part)
    } else {
        assert("/"@ =~= seq!['/']);
        out.concat("/").concat(part)
    }
}

/// Cleans a relative path for the saved-pages area; the result is empty where
/// nothing of it names a real entry.
pub fn sanitize_relative_path(s: &str) -> (r: String)
    ensures
        r@ == sanitized_path(s@),
{
    let n = s.unicode_len();
    let mut out = String::new();
    let mut part = String::new();
    let mut i: usize = 0;
    while i < n
        invariant
            n == s@.len(),
            i <= n,
            (out@, part@) == path_scan(s@.subrange(0, i as int)),
        decreases n - i,
    {
        let c = s.get_char(i);
        assert(s@.subrange(0, i + 1).drop_last() == s@.subrange(0, i as int));
        assert(s@.subrange(0, i + 1).last() == c);
        if c == '/' || c == '\\' {
            out = flush_exec(out, part.as_str());
            part = String::new();
        } else if is_name_char(c) {
            part.append(s.substring_char(i, i + 1));
        }
        i = i + 1;
    }
    assert(s@.subrange(0, n as int) == s@);
    flush_exec(out, part.as_str())
}

/// `s` up to its first `?`.
pub open spec fn before_query(s: Seq<char>) -> Seq<char>
    decreases s.len(),
{
    if s.len() == 0 {
        s
    } else if before_query(s.drop_last()).len() < s.len() - 1 {
        before_query(s.drop_last())
    } else if s.last() == '?' {
        s.drop_last()
    } else {
        s
    }
}

/// `s` after its last `/`.
pub open spec fn last_segment(s: Seq<char>) -> Seq<char>
    decreases s.len(),
{
    if s.len() == 0 {
        s
    } else if s.last() == '/' {
        Seq::empty()
    } else {
        last_segment(s.drop_last()).push(s.last())
    }
}

/// `s` kept to name characters.
pub open spec fn name_chars(s: Seq<char>) -> Seq<char> {
    s.filter(|c: char| name_char(c))
}

/// The file name a resource is saved under: the last segment of `url` before any
/// query, kept to name characters; `None` where nothing is left.
pub open spec fn resource_name_of(url: Seq<char>) -> Option<Seq<char>> {
    let name = name_chars(last_segment(before_query(url)));
    if name.len() == 0 {
        None
    } else {
        Some(name)
    }
}

/// The file name a resource at `url` is saved under.
pub fn resource_file_name(url: &str) -> (r: Option<String>)
    ensures
        r.deep_view() == resource_name_of(url@),
{
    let n = url.unicode_len();
    let mut end: usize = 0;
    while end < n && url.get_char(end) != '?'
        invariant
            n == url@.len(),
            end <= n,
            forall|k: int| 0 <= k < end ==> url@[k] != '?',
        decreases n - end,
    {
        end = end + 1;
    }
    proof {
        lemma_before_query(url@, end as int);
    }
    let mut start: usize = end;
    while start > 0 && url.get_char(start - 1) != '/'
        invariant
            start <= end,
            end <= n,
            n == url@.len(),
            forall|k: int| start <= k < end ==> url@[k] != '/',
        decreases start,
    {
        start = start - 1;
    }
    proof {
        lemma_last_segment(url@.subrange(0, end as int), start as int);
    }
    let mut name = String::new();
    let mut i: usize = start;
    while i < end
        invariant
            start <= i <= end,
            end <= n,
            n == url@.len(),
            name@ == name_chars(url@.subrange(start as int, i as int)),
        decreases end - i,
    {
        let c = url.get_char(i);
        let ghost seg = url@.subrange(start as int, i as int);
        assert(url@.subrange(start as int, i + 1) == seg.push(c));
        proof {
            lemma_filter_push(seg, c);
        }
        if is_name_char(c) {
            name.append(url.substring_char(i, i + 1));
        }
        i = i + 1;
    }
    assert(url@.subrange(0, end as int).subrange(start as int, end as int) == url@.subrange(start as int, end as int));
    if name.unicode_len() == 0 {
        None
    } else {
        Some(name)
    }
}

/// Filtering a sequence one element longer.
pub proof fn lemma_filter_push(s: Seq<char>, c: char)
    ensures
        name_chars(s.push(c)) == if name_char(c) {
            name_chars(s).push(c)
        } else {
            name_chars(s)
        },
{
    assert(s.push(c).drop_last() == s);
    reveal(Seq::filter);
}

/// The part before the first `?` is the prefix up to that position.
pub proof fn lemma_before_query(s: Seq<char>, end: int)
    requires
        0 <= end <= s.len(),
        forall|k: int| 0 <= k < end ==> s[k] != '?',
        end == s.len() || s[end] == '?',
    ensures
        before_query(s) == s.subrange(0, end),
    decreases s.len(),
{
    if s.len() == 0 {
    } else if end == s.len() {
        lemma_no_query(s);
    } else {
        if end < s.len() - 1 {
            lemma_before_query(s.drop_last(), end);
            assert(s.drop_last().subrange(0, end) == s.subrange(0, end));
        } else {
            lemma_no_query(s.drop_last());
            assert(s.drop_last() == s.subrange(0, end));
        }
    }
}

/// Without a `?`, nothing is cut.
pub proof fn lemma_no_query(s: Seq<char>)
    requires
        forall|k: int| 0 <= k < s.len() ==> s[k] != '?',
    ensures
        before_query(s) == s,
    decreases s.len(),
{
    if s.len() > 0 {
        lemma_no_query(s.drop_last());
    }
}

/// The last segment is what follows the last `/`.
pub proof fn lemma_last_segment(s: Seq<char>, start: int)
    requires
        0 <= start <= s.len(),
        forall|k: int| start <= k < s.len() ==> s[k] != '/',
        start == 0 || s[start - 1] == '/',
    ensures
        last_segment(s) == s.subrange(start, s.len() as int),
    decreases s.len(),
{
    if s.len() == 0 {
    } else if start == s.len() {
    } else {
        lemma_last_segment(s.drop_last(), start);
        assert(s.subrange(start, s.len() as int) == s.drop_last().subrange(start, s.len() - 1).push(s.last()));
    }
}

/// The largest page a fetch accepts: 10 MiB.
pub const MAX_PAGE_BYTES: u64 = 10 * 1024 * 1024;

/// The largest resource a fetch accepts, and the largest page that is saved: 5 MiB.
pub const MAX_RESOURCE_BYTES: u64 = 5 * 1024 * 1024;

/// A size over its bound, reported in whole MiB.
#[derive(PartialEq, Eq, Structural, Clone, Copy, Debug)]
pub struct TooLarge {
    pub megabytes: u64,
}

/// Checks a size against its bound.
pub fn check_size(size: u64, limit: u64) -> (r: Result<(), TooLarge>)
    ensures
        r is Err <==> size > limit,
        r matches Err(e) ==> e.megabytes as int == size as int / 1048576,
{
    if size > limit {
        Err(TooLarge { megabytes: size / 1024 / 1024 })
    } else {
        Ok(())
    }
}

} // verus!
