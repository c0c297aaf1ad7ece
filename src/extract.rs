//! The selector-based extractor: one record per element that the item selector
//! matches, in document order, with each field read inside that element only.

use vstd::prelude::*;
use crate::html::{
    element_attr, element_text, first_within, has_match_within, match_count, select_items, selector_valid,
    trim_text, trimmed, Css, Document, Elem,
};
use crate::model::{ExtractionConfig, Mod, ModView};
use crate::text::{is_prefix, starts_with};

verus! {

/// Which selector of a configuration is meant.
#[derive(PartialEq, Eq, Structural, Clone, Copy, Debug)]
pub enum SelectorField {
    Item,
    Title,
    Url,
    Version,
    Author,
    Image,
}

/// Why an extraction call fails as a whole.
#[derive(PartialEq, Eq, Structural, Clone, Copy, Debug)]
pub enum ExtractError {
    /// The configuration names no item selector.
    MissingItemSelector,
    /// The named selector is not valid CSS.
    InvalidSelector(SelectorField),
}

/// A present selector that does not parse.
pub open spec fn invalid(sel: Option<Seq<char>>) -> bool {
    sel matches Some(s) && !selector_valid(s)
}

/// The first selector of the configuration, in the order item, title, URL, version,
/// author, image, that is present and does not parse.
pub open spec fn first_invalid(cfg: ExtractionConfig) -> Option<SelectorField> {
    if invalid(cfg.item_selector.deep_view()) {
        Some(SelectorField::Item)
    } else if invalid(cfg.title_selector.deep_view()) {
        Some(SelectorField::Title)
    } else if invalid(cfg.url_selector.deep_view()) {
        Some(SelectorField::Url)
    } else if invalid(cfg.version_selector.deep_view()) {
        Some(SelectorField::Version)
    } else if invalid(cfg.author_selector.deep_view()) {
        Some(SelectorField::Author)
    } else if invalid(cfg.image_selector.deep_view()) {
        Some(SelectorField::Image)
    } else {
        None
    }
}

/// The outcome of the configuration checks, before any element is read.
pub open spec fn config_error(cfg: ExtractionConfig) -> Option<ExtractError> {
    if cfg.item_selector is None {
        Some(ExtractError::MissingItemSelector)
    } else {
        match first_invalid(cfg) {
            Some(f) => Some(ExtractError::InvalidSelector(f)),
            None => None,
        }
    }
}

/// The trimmed text of the first match of `field` inside item `i`, if the field has
/// a selector and it matches.
pub open spec fn field_text(html: Seq<char>, item: Seq<char>, i: nat, field: Option<Seq<char>>) -> Option<Seq<char>> {
    match field {
        Some(f) => if has_match_within(html, item, i, f) {
            Some(trimmed(element_text(html, item, i, Some(f))))
        } else {
            None
        },
        None => None,
    }
}

/// The attribute `name` of the first match of `field` inside item `i`.
pub open spec fn field_attr(
    html: Seq<char>,
    item: Seq<char>,
    i: nat,
    field: Option<Seq<char>>,
    name: Seq<char>,
) -> Option<Seq<char>> {
    match field {
        Some(f) => if has_match_within(html, item, i, f) {
            element_attr(html, item, i, Some(f), name)
        } else {
            None
        },
        None => None,
    }
}

/// The text `http`.
pub open spec fn http_prefix() -> Seq<char> {
    seq!['h', 't', 't', 'p']
}

/// A link made absolute: kept where it starts with `http`, else put after the base.
pub open spec fn resolve_link(raw: Seq<char>, base: Seq<char>) -> Seq<char> {
    if is_prefix(http_prefix(), raw) {
        raw
    } else {
        base + raw
    }
}

/// The configured base URL, empty where there is none.
pub open spec fn base_of(cfg: ExtractionConfig) -> Seq<char> {
    match cfg.base_url.deep_view() {
        Some(b) => b,
        None => Seq::empty(),
    }
}

/// An optional link made absolute.
pub open spec fn resolve_opt(raw: Option<Seq<char>>, base: Seq<char>) -> Option<Seq<char>> {
    match raw {
        Some(r) => Some(resolve_link(r, base)),
        None => None,
    }
}

/// The detail URL of item `i`; empty where it has none.
pub open spec fn item_url(html: Seq<char>, cfg: ExtractionConfig, i: nat) -> Seq<char> {
    let item = cfg.item_selector.deep_view()->0;
    match field_attr(html, item, i, cfg.url_selector.deep_view(), seq!['h', 'r', 'e', 'f']) {
        Some(href) => resolve_link(href, base_of(cfg)),
        None => Seq::empty(),
    }
}

/// The placeholder title.
pub open spec fn unknown_title() -> Seq<char> {
    seq!['U', 'n', 'k', 'n', 'o', 'w', 'n']
}

/// The record that item `i` yields.
pub open spec fn record_view_of(html: Seq<char>, cfg: ExtractionConfig, i: nat, site_id: i64, now: i64) -> ModView {
    let item = cfg.item_selector.deep_view()->0;
    ModView {
        id: 0,
        site_id: site_id,
        title: match field_text(html, item, i, cfg.title_selector.deep_view()) {
            Some(t) => t,
            None => unknown_title(),
        },
        url: item_url(html, cfg, i),
        version: field_text(html, item, i, cfg.version_selector.deep_view()),
        author: field_text(html, item, i, cfg.author_selector.deep_view()),
        description: None,
        image_url: resolve_opt(
            field_attr(html, item, i, cfg.image_selector.deep_view(), seq!['s', 'r', 'c']),
            base_of(cfg),
        ),
        changes: None,
        created_at: now,
        updated_at: now,
    }
}

/// `m` is the record that item `i` yields.
pub open spec fn is_record_of(m: Mod, html: Seq<char>, cfg: ExtractionConfig, i: nat, site_id: i64, now: i64) -> bool {
    m@ == record_view_of(html, cfg, i, site_id, now)
}

/// The positions, in document order, of the first `n` items that have a detail URL.
pub open spec fn kept_items(html: Seq<char>, cfg: ExtractionConfig, n: nat) -> Seq<nat>
    decreases n,
{
    if n == 0 {
        Seq::empty()
    } else {
        let before = kept_items(html, cfg, (n - 1) as nat);
        if item_url(html, cfg, (n - 1) as nat).len() > 0 {
            before.push((n - 1) as nat)
        } else {
            before
        }
    }
}

/// `records` are the records of the first `n` items that have a detail URL, in order.
pub open spec fn records_of(records: Seq<Mod>, html: Seq<char>, cfg: ExtractionConfig, n: nat, site_id: i64, now: i64) -> bool {
    let kept = kept_items(html, cfg, n);
    &&& records.len() == kept.len()
    &&& forall|j: int| 0 <= j < records.len() ==> is_record_of(#[trigger] records[j], html, cfg, kept[j], site_id, now)
}

/// What extraction yields: the configuration error, or the records of all items.
pub open spec fn extraction_ok(r: Result<Vec<Mod>, ExtractError>, html: Seq<char>, cfg: ExtractionConfig, site_id: i64, now: i64) -> bool {
    match config_error(cfg) {
        Some(e) => r == Err::<Vec<Mod>, ExtractError>(e),
        None => r matches Ok(v) && records_of(
            v@,
            html,
            cfg,
            match_count(html, cfg.item_selector.deep_view()->0),
            site_id,
            now,
        ),
    }
}

/// Compiles an optional selector; `Err` where it is present and invalid.
fn compile_opt(sel: &Option<String>, which: SelectorField) -> (r: Result<Option<Css>, ExtractError>)
    ensures
        match r {
            Ok(Some(c)) => sel.deep_view() == Some(c.src()),
            Ok(None) => sel is None,
            Err(e) => invalid(sel.deep_view()) && e == ExtractError::InvalidSelector(which),
        },
        r is Err <==> invalid(sel.deep_view()),
{
    match sel {
        Some(s) => match Css::parse(s.as_str()) {
            Some(c) => Ok(Some(c)),
            None => Err(ExtractError::InvalidSelector(which)),
        },
        None => Ok(None),
    }
}

/// The trimmed text of the first match of `field` inside `item`.
fn read_text<'a>(item: &Elem<'a>, field: &'a Option<Css>) -> (r: Option<String>)
    requires
        item.field() is None,
    ensures
        r.deep_view() == field_text(
            item.html(),
            item.selector(),
            item.position(),
            match field {
                Some(c) => Some(c.src()),
                None => None,
            },
        ),
{
    match field {
        Some(c) => match first_within(item, c) {
            Some(f) => {
                let t = f.text();
                Some(trim_text(t.as_str()))
            },
            None => None,
        },
        None => None,
    }
}

/// The attribute `name` of the first match of `field` inside `item`.
fn read_attr<'a>(item: &Elem<'a>, field: &'a Option<Css>, name: &str) -> (r: Option<String>)
    requires
        item.field() is None,
    ensures
        r.deep_view() == field_attr(
            item.html(),
            item.selector(),
            item.position(),
            match field {
                Some(c) => Some(c.src()),
                None => None,
            },
            name@,
        ),
{
    match field {
        Some(c) => match first_within(item, c) {
            Some(f) => f.attr(name),
            None => None,
        },
        None => None,
    }
}

/// A link made absolute against `base`.
pub fn resolve_link_exec(raw: &str, base: &str) -> (r: String)
    ensures
        r@ == resolve_link(raw@, base@),
{
    proof {
        reveal_strlit("http");
    }
    assert(http_prefix() == "http"@);
    if starts_with(raw, "http") {
        String::from_str(raw)
    } else {
        String::from_str(base).concat(raw)
    }
}

/// The record built from the field values read out of one item: `None` where the
/// detail link, made absolute, is empty; the title falls back to the placeholder.
pub open spec fn assembled(
    title: Option<Seq<char>>,
    href: Option<Seq<char>>,
    version: Option<Seq<char>>,
    author: Option<Seq<char>>,
    image_src: Option<Seq<char>>,
    base: Seq<char>,
    site_id: i64,
    now: i64,
) -> Option<ModView> {
    let url = match href {
        Some(h) => resolve_link(h, base),
        None => Seq::empty(),
    };
    if url.len() == 0 {
        None
    } else {
        Some(
            ModView {
                id: 0,
                site_id: site_id,
                title: match title {
                    Some(t) => t,
                    None => unknown_title(),
                },
                url: url,
                version: version,
                author: author,
                description: None,
                image_url: resolve_opt(image_src, base),
                changes: None,
                created_at: now,
                updated_at: now,
            },
        )
    }
}

/// Builds the record of one item from the values read out of it.
pub fn build_record(
    title: Option<String>,
    href: Option<String>,
    version: Option<String>,
    author: Option<String>,
    image_src: Option<String>,
    base: &str,
    site_id: i64,
    now: i64,
) -> (r: Option<Mod>)
    ensures
        match r {
            Some(m) => assembled(
                title.deep_view(),
                href.deep_view(),
                version.deep_view(),
                author.deep_view(),
                image_src.deep_view(),
                base@,
                site_id,
                now,
            ) == Some(m@),
            None => assembled(
                title.deep_view(),
                href.deep_view(),
                version.deep_view(),
                author.deep_view(),
                image_src.deep_view(),
                base@,
                site_id,
                now,
            ) is None,
        },
{
    proof {
        reveal_strlit("Unknown");
    }
    assert("Unknown"@ =~= unknown_title());
    let url = match href {
        Some(h) => resolve_link_exec(h.as_str(), base),
        None => String::new(),
    };
    if url.unicode_len() == 0 {
        return None;
    }
    let ghost title_in = title.deep_view();
    let title_text = match title {
        Some(t) => t,
        None => String::from_str("Unknown"),
    };
    let image_url = match image_src {
        Some(src) => Some(resolve_link_exec(src.as_str(), base)),
        None => None,
    };
    let m = Mod {
        id: 0,
        site_id,
        title: title_text,
        url,
        version,
        author,
        description: None,
        image_url,
        changes: None,
        created_at: now,
        updated_at: now,
    };
    assert(m@ =~= assembled(
        title_in,
        href.deep_view(),
        version.deep_view(),
        author.deep_view(),
        image_src.deep_view(),
        base@,
        site_id,
        now,
    )->0);
    Some(m)
}

/// The record of one item, or `None` where it has no detail URL.
fn record_of<'a>(
    item: &Elem<'a>,
    cfg: &ExtractionConfig,
    sels: &'a (Option<Css>, Option<Css>, Option<Css>, Option<Css>, Option<Css>),
    base: &str,
    site_id: i64,
    now: i64,
) -> (r: Option<Mod>)
    requires
        item.field() is None,
        cfg.item_selector.deep_view() == Some(item.selector()),
        base@ == base_of(*cfg),
        opt_src(&sels.0) == cfg.title_selector.deep_view(),
        opt_src(&sels.1) == cfg.url_selector.deep_view(),
        opt_src(&sels.2) == cfg.version_selector.deep_view(),
        opt_src(&sels.3) == cfg.author_selector.deep_view(),
        opt_src(&sels.4) == cfg.image_selector.deep_view(),
    ensures
        match r {
            Some(m) => item_url(item.html(), *cfg, item.position()).len() > 0
                && is_record_of(m, item.html(), *cfg, item.position(), site_id, now),
            None => item_url(item.html(), *cfg, item.position()).len() == 0,
        },
{
    proof {
        reveal_strlit("href");
        reveal_strlit("src");
    }
    assert("href"@ =~= seq!['h', 'r', 'e', 'f']);
    assert("src"@ =~= seq!['s', 'r', 'c']);
    let href = read_attr(item, &sels.1, "href");
    let title = read_text(item, &sels.0);
    let version = read_text(item, &sels.2);
    let author = read_text(item, &sels.3);
    let image_src = read_attr(item, &sels.4, "src");
    let r = build_record(title, href, version, author, image_src, base, site_id, now);
    assert(r matches Some(m) ==> m@ =~= record_view_of(item.html(), *cfg, item.position(), site_id, now));
    r
}

/// The source of an optional compiled selector.
pub open spec fn opt_src(c: &Option<Css>) -> Option<Seq<char>> {
    match c {
        Some(c) => Some(c.src()),
        None => None,
    }
}

/// Extracts the records of a listing page: one per element that the item selector
/// matches, in document order, each field read inside its element; items without a
/// detail URL are left out; every record is stamped with `site_id` and `now`. Fails
/// as a whole where the item selector is missing or any selector is invalid.
pub fn extract(html: &str, cfg: &ExtractionConfig, site_id: i64, now: i64) -> (r: Result<Vec<Mod>, ExtractError>)
    ensures
        extraction_ok(r, html@, *cfg, site_id, now),
{
    let item_css = match &cfg.item_selector {
        None => return Err(ExtractError::MissingItemSelector),
        Some(s) => match Css::parse(s.as_str()) {
            Some(c) => c,
            None => return Err(ExtractError::InvalidSelector(SelectorField::Item)),
        },
    };
    let title = compile_opt(&cfg.title_selector, SelectorField::Title)?;
    let url = compile_opt(&cfg.url_selector, SelectorField::Url)?;
    let version = compile_opt(&cfg.version_selector, SelectorField::Version)?;
    let author = compile_opt(&cfg.author_selector, SelectorField::Author)?;
    let image = compile_opt(&cfg.image_selector, SelectorField::Image)?;
    let sels = (title, url, version, author, image);
    let base = match &cfg.base_url {
        Some(b) => b.clone(),
        None => String::new(),
    };
    let doc = Document::parse(html);
    let items = select_items(&doc, &item_css);
    let ghost n = match_count(html@, cfg.item_selector.deep_view()->0);
    let mut out: Vec<Mod> = Vec::new();
    let mut i: usize = 0;
    while i < items.len()
        invariant
            items@.len() == n,
            i <= n,
            cfg.item_selector.deep_view() == Some(item_css.src()),
            base@ == base_of(*cfg),
            opt_src(&sels.0) == cfg.title_selector.deep_view(),
            opt_src(&sels.1) == cfg.url_selector.deep_view(),
            opt_src(&sels.2) == cfg.version_selector.deep_view(),
            opt_src(&sels.3) == cfg.author_selector.deep_view(),
            opt_src(&sels.4) == cfg.image_selector.deep_view(),
            forall|k: int|
                0 <= k < items@.len() ==> (#[trigger] items@[k]).html() == html@ && items@[k].selector()
                    == item_css.src() && items@[k].position() == k && items@[k].field() is None,
            records_of(out@, html@, *cfg, i as nat, site_id, now),
        decreases n - i,
    {
        let item = &items[i];
        let r = record_of(item, cfg, &sels, base.as_str(), site_id, now);
        let ghost before = out@;
        match r {
            Some(m) => {
                out.push(m);
            },
            None => {},
        }
        proof {
            let kept = kept_items(html@, *cfg, (i + 1) as nat);
            assert(kept_items(html@, *cfg, (i + 1) as nat) == if item_url(html@, *cfg, i as nat).len() > 0 {
                kept_items(html@, *cfg, i as nat).push(i as nat)
            } else {
                kept_items(html@, *cfg, i as nat)
            });
            assert forall|j: int| 0 <= j < out@.len() implies is_record_of(#[trigger] out@[j], html@, *cfg, kept[j], site_id, now) by {
                if j < before.len() {
                    assert(out@[j] == before[j]);
                }
            }
        }
        i = i + 1;
    }
    Ok(out)
}

/// Extraction is a function of its inputs: any two results that extraction may give
/// on the same page, configuration, site and instant are the same.
pub proof fn lemma_extract_idempotent(
    html: Seq<char>,
    cfg: ExtractionConfig,
    site_id: i64,
    now: i64,
    r1: Result<Vec<Mod>, ExtractError>,
    r2: Result<Vec<Mod>, ExtractError>,
)
    requires
        extraction_ok(r1, html, cfg, site_id, now),
        extraction_ok(r2, html, cfg, site_id, now),
    ensures
        match (r1, r2) {
            (Ok(a), Ok(b)) => a@.map_values(|m: Mod| m@) == b@.map_values(|m: Mod| m@),
            (Err(e1), Err(e2)) => e1 == e2,
            _ => false,
        },
{
    match (r1, r2) {
        (Ok(a), Ok(b)) => {
            assert(a@.map_values(|m: Mod| m@) =~= b@.map_values(|m: Mod| m@));
        },
        _ => {},
    }
}

} // verus!
