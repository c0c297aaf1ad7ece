//! The parsers that the application runs: the configuration-driven engine, the
//! selector preview, and a parser with built-in selectors for one site layout.

use vstd::prelude::*;
use crate::extract::{extract, extraction_ok, kept_items, record_view_of, records_of, unknown_title, ExtractError, SelectorField};
use crate::html::{element_attributes, element_markup, element_text, match_count, select_items, trim_text, trimmed, Css, Document};
use crate::model::{ExtractionConfig, Mod, ModView, Site};
use crate::text::same_text;

verus! {

/// The records that extraction yields, as values, in order.
pub open spec fn extracted_views(html: Seq<char>, cfg: ExtractionConfig, site_id: i64, now: i64) -> Seq<ModView> {
    kept_items(html, cfg, match_count(html, cfg.item_selector.deep_view()->0)).map_values(
        |k: nat| record_view_of(html, cfg, k, site_id, now),
    )
}

/// The records the extractor returned are exactly the extracted ones.
pub proof fn lemma_records_are_extracted(v: Seq<Mod>, html: Seq<char>, cfg: ExtractionConfig, site_id: i64, now: i64)
    requires
        records_of(v, html, cfg, match_count(html, cfg.item_selector.deep_view()->0), site_id, now),
    ensures
        v.map_values(|m: Mod| m@) == extracted_views(html, cfg, site_id, now),
{
    assert(v.map_values(|m: Mod| m@) =~= extracted_views(html, cfg, site_id, now));
}

/// The engine that runs a site's extraction configuration.
pub struct ParserEngine;

impl ParserEngine {
    pub fn new() -> (r: ParserEngine) {
        ParserEngine
    }

    /// The page that lists a site's records: the configured listing URL, else the
    /// site's own URL.
    pub fn listing_url<'a>(&self, site: &'a Site) -> (r: &'a String)
        ensures
            *r == match site.parser_config.list_url {
                Some(u) => u,
                None => site.url,
            },
    {
        match &site.parser_config.list_url {
            Some(u) => u,
            None => &site.url,
        }
    }

    /// The records of a site's listing page, stamped with the site and `now`.
    pub fn parse_site(&self, site: &Site, html: &str, now: i64) -> (r: Result<Vec<Mod>, ExtractError>)
        ensures
            extraction_ok(r, html@, site.parser_config, site.id, now),
    {
        extract(html, &site.parser_config, site.id, now)
    }
}

/// One element that a selector matched, as the preview shows it.
#[derive(Clone, Debug)]
pub struct PreviewMatch {
    pub text: String,
    pub html: String,
    pub attributes: Vec<(String, String)>,
}

/// The selector preview: shows what a selector matches on a page.
pub struct ParserBuilder;

impl ParserBuilder {
    pub fn new() -> (r: ParserBuilder) {
        ParserBuilder
    }

    /// Every element that `selector` matches in `html`, in document order, with its
    /// trimmed text, its markup and its attributes; an invalid selector is an error.
    pub fn build_from_selector(&self, html: &str, selector: &str) -> (r: Result<Vec<PreviewMatch>, ExtractError>)
        ensures
            match r {
                Err(e) => !crate::html::selector_valid(selector@) && e == ExtractError::InvalidSelector(
                    SelectorField::Item,
                ),
                Ok(v) => crate::html::selector_valid(selector@) && v@.len() == match_count(html@, selector@) && forall|i: int|
                    0 <= i < v@.len() ==> (#[trigger] v@[i]).text@ == trimmed(element_text(html@, selector@, i as nat, None))
                        && v@[i].html@ == element_markup(html@, selector@, i as nat, None)
                        && v@[i].attributes.deep_view() == element_attributes(html@, selector@, i as nat, None),
            },
    {
        let css = match Css::parse(selector) {
            Some(c) => c,
            None => return Err(ExtractError::InvalidSelector(SelectorField::Item)),
        };
        let doc = Document::parse(html);
        let items = select_items(&doc, &css);
        let mut out: Vec<PreviewMatch> = Vec::new();
        let mut i: usize = 0;
        while i < items.len()
            invariant
                i <= items@.len(),
                items@.len() == match_count(html@, selector@),
                css.src() == selector@,
                forall|k: int|
                    0 <= k < items@.len() ==> (#[trigger] items@[k]).html() == html@ && items@[k].selector()
                        == selector@ && items@[k].position() == k && items@[k].field() is None,
                out@.len() == i,
                forall|k: int|
                    0 <= k < i ==> (#[trigger] out@[k]).text@ == trimmed(element_text(html@, selector@, k as nat, None))
                        && out@[k].html@ == element_markup(html@, selector@, k as nat, None)
                        && out@[k].attributes.deep_view() == element_attributes(html@, selector@, k as nat, None),
            decreases items@.len() - i,
        {
            let item = &items[i];
            let raw = item.text();
            let m = PreviewMatch { text: trim_text(raw.as_str()), html: item.markup(), attributes: item.attributes() };
            out.push(m);
            i = i + 1;
        }
        Ok(out)
    }
}

/// `s` without its trailing slashes.
pub open spec fn trim_end_slashes(s: Seq<char>) -> Seq<char>
    decreases s.len(),
{
    if s.len() > 0 && s.last() == '/' {
        trim_end_slashes(s.drop_last())
    } else {
        s
    }
}

/// Removes every trailing slash.
pub fn trim_end_slashes_exec(s: &str) -> (r: String)
    ensures
        r@ == trim_end_slashes(s@),
{
    let mut n = s.unicode_len();
    assert(s@.subrange(0, n as int) == s@);
    while n > 0 && s.get_char(n - 1) == '/'
        invariant
            n <= s@.len(),
            trim_end_slashes(s@) == trim_end_slashes(s@.subrange(0, n as int)),
        decreases n,
    {
        assert(s@.subrange(0, n as int).drop_last() == s@.subrange(0, n - 1));
        n = n - 1;
    }
    assert(s@.subrange(0, n as int) == s@.subrange(0, n as int));
    String::from_str(s.substring_char(0, n))
}

/// The records whose title is not the placeholder, in order.
pub open spec fn titled(v: Seq<ModView>) -> Seq<ModView>
    decreases v.len(),
{
    if v.len() == 0 {
        v
    } else if v.last().title != unknown_title() {
        titled(v.drop_last()).push(v.last())
    } else {
        titled(v.drop_last())
    }
}

/// The built-in selectors of the parser for one site layout, with `base` for links.
pub open spec fn layout_config_of(cfg: ExtractionConfig, base: Seq<char>) -> bool {
    &&& cfg.list_url is None
    &&& cfg.item_selector.deep_view() == Some(".mod-item, .article-item, .post-item"@)
    &&& cfg.title_selector.deep_view() == Some("h2, h3, .title, .post-title, a"@)
    &&& cfg.url_selector.deep_view() == Some("a"@)
    &&& cfg.version_selector.deep_view() == Some(".version, .ver"@)
    &&& cfg.author_selector.deep_view() == Some(".author, .by-author"@)
    &&& cfg.image_selector.deep_view() == Some("img"@)
    &&& cfg.base_url.deep_view() == Some(base)
}

/// A parser with built-in selectors for one site layout.
pub struct SynthiraParser;

impl SynthiraParser {
    pub fn new() -> (r: SynthiraParser) {
        SynthiraParser
    }

    /// The configuration this parser runs for a page at `url`: links are resolved
    /// against `url` without its trailing slashes.
    pub fn config(&self, url: &str) -> (r: ExtractionConfig)
        ensures
            layout_config_of(r, trim_end_slashes(url@)),
    {
        ExtractionConfig {
            list_url: None,
            item_selector: Some(String::from_str(".mod-item, .article-item, .post-item")),
            title_selector: Some(String::from_str("h2, h3, .title, .post-title, a")),
            url_selector: Some(String::from_str("a")),
            version_selector: Some(String::from_str(".version, .ver")),
            author_selector: Some(String::from_str(".author, .by-author")),
            image_selector: Some(String::from_str("img")),
            base_url: Some(trim_end_slashes_exec(url)),
        }
    }

    /// The records of the page at `url` whose `html` is given, leaving out those whose
    /// title could not be read.
    pub fn parse(&self, url: &str, html: &str, now: i64) -> (r: Result<Vec<Mod>, ExtractError>)
        ensures
            exists|cfg: ExtractionConfig|
                layout_config_of(cfg, trim_end_slashes(url@)) && match r {
                    Err(e) => extraction_ok(Err(e), html@, cfg, 0, now),
                    Ok(v) => crate::extract::config_error(cfg) is None && v@.map_values(|m: Mod| m@) == titled(
                        extracted_views(html@, cfg, 0, now),
                    ),
                },
    {
        let cfg = self.config(url);
        let all = match extract(html, &cfg, 0, now) {
            Ok(v) => v,
            Err(e) => return Err(e),
        };
        proof {
            lemma_records_are_extracted(all@, html@, cfg, 0, now);
            reveal_strlit("Unknown");
        }
        assert("Unknown"@ =~= unknown_title());
        let ghost views = all@.map_values(|m: Mod| m@);
        let mut out: Vec<Mod> = Vec::new();
        let mut i: usize = 0;
        while i < all.len()
            invariant
                i <= all@.len(),
                views == all@.map_values(|m: Mod| m@),
                "Unknown"@ == unknown_title(),
                out@.map_values(|m: Mod| m@) == titled(views.subrange(0, i as int)),
            decreases all@.len() - i,
        {
            let m = &all[i];
            let ghost pre = views.subrange(0, i as int);
            assert(views.subrange(0, i + 1).drop_last() == pre);
            assert(views.subrange(0, i + 1).last() == m@);
            let ghost before = out@;
            let ghost next = views.subrange(0, i + 1);
            assert(titled(next) == if next.last().title != unknown_title() {
                titled(next.drop_last()).push(next.last())
            } else {
                titled(next.drop_last())
            });
            if !same_text(m.title.as_str(), "Unknown") {
                out.push(m.copy());
                assert(out@.map_values(|m: Mod| m@) =~= before.map_values(|m: Mod| m@).push(m@));
            }
            i = i + 1;
        }
        assert(views.subrange(0, i as int) == views);
        Ok(out)
    }
}

} // verus!
