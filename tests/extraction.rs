use mod_aggregator::extract::{build_record, extract, resolve_link_exec, ExtractError, SelectorField};
use mod_aggregator::model::{ExtractionConfig, Mod, Site};
use mod_aggregator::parser::{ParserBuilder, ParserEngine, SynthiraParser};

fn config(item: Option<&str>, title: Option<&str>, url: Option<&str>, base: Option<&str>) -> ExtractionConfig {
    ExtractionConfig {
        list_url: None,
        item_selector: item.map(|s| s.to_string()),
        title_selector: title.map(|s| s.to_string()),
        url_selector: url.map(|s| s.to_string()),
        version_selector: None,
        author_selector: None,
        image_selector: None,
        base_url: base.map(|s| s.to_string()),
    }
}

const TWO_CARDS: &str = r#"<html><body>
<div class="card"><span class="t"> First </span><a href="/m/1">go</a></div>
<div class="card"><span class="t">Second</span><a href="/m/2">go</a></div>
</body></html>"#;

fn urls(v: &[Mod]) -> Vec<String> {
    v.iter().map(|m| m.url.clone()).collect()
}

#[test]
fn two_cards_in_document_order() {
    let cfg = config(Some(".card"), Some(".t"), Some("a"), Some("https://site.example"));
    let v = extract(TWO_CARDS, &cfg, 7, 1000).unwrap();
    assert_eq!(urls(&v), vec!["https://site.example/m/1", "https://site.example/m/2"]);
    assert_eq!(v[0].title, "First");
    assert_eq!(v[1].title, "Second");
    assert_eq!(v[0].site_id, 7);
    assert_eq!(v[0].id, 0);
    assert_eq!(v[0].created_at, 1000);
    assert_eq!(v[1].updated_at, 1000);
    assert_eq!(v[0].version, None);
    assert_eq!(v[0].description, None);
}

#[test]
fn extraction_twice_gives_the_same_records() {
    let cfg = config(Some(".card"), Some(".t"), Some("a"), Some("https://site.example"));
    let a = extract(TWO_CARDS, &cfg, 1, 5).unwrap();
    let b = extract(TWO_CARDS, &cfg, 1, 5).unwrap();
    assert_eq!(a.len(), b.len());
    for (x, y) in a.iter().zip(b.iter()) {
        assert_eq!(x.url, y.url);
        assert_eq!(x.title, y.title);
        assert_eq!(x.version, y.version);
        assert_eq!(x.image_url, y.image_url);
    }
}

#[test]
fn missing_item_selector_fails() {
    let cfg = config(None, Some(".t"), Some("a"), None);
    assert_eq!(extract(TWO_CARDS, &cfg, 1, 0).unwrap_err(), ExtractError::MissingItemSelector);
}

#[test]
fn invalid_item_selector_fails() {
    let cfg = config(Some("[[["), Some(".t"), Some("a"), None);
    assert_eq!(extract(TWO_CARDS, &cfg, 1, 0).unwrap_err(), ExtractError::InvalidSelector(SelectorField::Item));
}

#[test]
fn invalid_field_selector_fails_whole_call() {
    let cfg = config(Some(".card"), Some("::"), Some("a"), None);
    assert_eq!(extract(TWO_CARDS, &cfg, 1, 0).unwrap_err(), ExtractError::InvalidSelector(SelectorField::Title));
    let mut cfg = config(Some(".card"), Some(".t"), Some("a"), None);
    cfg.image_selector = Some("img[".to_string());
    assert_eq!(extract(TWO_CARDS, &cfg, 1, 0).unwrap_err(), ExtractError::InvalidSelector(SelectorField::Image));
}

#[test]
fn item_without_link_is_dropped_and_title_defaults() {
    let html = r#"<div class="card"><a href="https://x.example/a">a</a></div>
<div class="card"><span class="t">no link</span></div>"#;
    let cfg = config(Some(".card"), Some(".t"), Some("a"), Some("https://site.example"));
    let v = extract(html, &cfg, 1, 0).unwrap();
    assert_eq!(v.len(), 1);
    assert_eq!(v[0].url, "https://x.example/a");
    assert_eq!(v[0].title, "Unknown");
}

#[test]
fn fields_are_read_inside_their_item_only() {
    let html = r#"<span class="t">outside</span><span class="v">9.9</span>
<div class="card"><a href="/one">x</a></div>"#;
    let mut cfg = config(Some(".card"), Some(".t"), Some("a"), Some("https://s.example"));
    cfg.version_selector = Some(".v".to_string());
    let v = extract(html, &cfg, 1, 0).unwrap();
    assert_eq!(v.len(), 1);
    assert_eq!(v[0].title, "Unknown");
    assert_eq!(v[0].version, None);
}

#[test]
fn all_fields_and_relative_image() {
    let html = r#"<ul><li class="m"><h3> Mod A </h3><a href="/mods/a">a</a><b class="ver"> 2.1 </b>
<i class="by">alice</i><img src="/img/a.png"></li></ul>"#;
    let cfg = ExtractionConfig {
        list_url: None,
        item_selector: Some(".m".to_string()),
        title_selector: Some("h3".to_string()),
        url_selector: Some("a".to_string()),
        version_selector: Some(".ver".to_string()),
        author_selector: Some(".by".to_string()),
        image_selector: Some("img".to_string()),
        base_url: Some("https://b.example".to_string()),
    };
    let v = extract(html, &cfg, 3, 42).unwrap();
    assert_eq!(v.len(), 1);
    assert_eq!(v[0].title, "Mod A");
    assert_eq!(v[0].url, "https://b.example/mods/a");
    assert_eq!(v[0].version.as_deref(), Some("2.1"));
    assert_eq!(v[0].author.as_deref(), Some("alice"));
    assert_eq!(v[0].image_url.as_deref(), Some("https://b.example/img/a.png"));
    assert_eq!(v[0].changes, None);
}

#[test]
fn empty_page_gives_no_records() {
    let cfg = config(Some(".card"), Some(".t"), Some("a"), None);
    assert!(extract("", &cfg, 1, 0).unwrap().is_empty());
}

#[test]
fn links_without_base_stay_relative() {
    let cfg = config(Some(".card"), None, Some("a"), None);
    let v = extract(TWO_CARDS, &cfg, 1, 0).unwrap();
    assert_eq!(urls(&v), vec!["/m/1", "/m/2"]);
    assert_eq!(v[0].title, "Unknown");
}

#[test]
fn link_resolution() {
    assert_eq!(resolve_link_exec("https://a.example/x", "https://b.example"), "https://a.example/x");
    assert_eq!(resolve_link_exec("/x", "https://b.example"), "https://b.example/x");
    assert_eq!(resolve_link_exec("x", ""), "x");
}

#[test]
fn engine_uses_site_config_and_listing_url() {
    let site = Site {
        id: 11,
        name: "S".to_string(),
        url: "https://site.example/".to_string(),
        parser_config: config(Some(".card"), Some(".t"), Some("a"), Some("https://site.example")),
        created_at: 0,
        updated_at: 0,
    };
    let engine = ParserEngine::new();
    assert_eq!(engine.listing_url(&site), "https://site.example/");
    let v = engine.parse_site(&site, TWO_CARDS, 9).unwrap();
    assert_eq!(v.len(), 2);
    assert!(v.iter().all(|m| m.site_id == 11 && m.updated_at == 9));
    let mut site2 = site;
    site2.parser_config.list_url = Some("https://site.example/list".to_string());
    assert_eq!(engine.listing_url(&site2), "https://site.example/list");
}

#[test]
fn preview_lists_matches() {
    let html = r#"<p class="x" id="a"> one </p><p class="x">two</p>"#;
    let b = ParserBuilder::new();
    let v = b.build_from_selector(html, "p.x").unwrap();
    assert_eq!(v.len(), 2);
    assert_eq!(v[0].text, "one");
    assert_eq!(v[1].text, "two");
    assert!(v[0].html.starts_with("<p"));
    assert!(v[0].attributes.contains(&("id".to_string(), "a".to_string())));
    assert_eq!(b.build_from_selector(html, "p[").unwrap_err(), ExtractError::InvalidSelector(SelectorField::Item));
}

#[test]
fn layout_parser_keeps_linked_items_and_trims_base() {
    let html = r#"<div class="post-item"><h2>Title</h2><a href="/p/1">read</a><span class="ver">3</span></div>
<div class="mod-item"><a href="/p/2"></a></div>
<div class="article-item"><img src="i.png"></div>
<div class="post-item"><a href="/p/3"> Unknown </a></div>"#;
    let p = SynthiraParser::new();
    let v = p.parse("https://s.example//", html, 4).unwrap();
    assert_eq!(v.len(), 2);
    assert_eq!(v[0].url, "https://s.example/p/1");
    assert_eq!(v[0].title, "Title");
    assert_eq!(v[0].version.as_deref(), Some("3"));
    assert_eq!(v[0].site_id, 0);
    assert_eq!(v[1].url, "https://s.example/p/2");
    assert_eq!(v[1].title, "");
}

#[test]
fn record_assembly_from_read_values() {
    let m = build_record(None, Some("/m/1".to_string()), Some("1.0".to_string()), None, Some("/i.png".to_string()), "https://s.example", 2, 8)
        .unwrap();
    assert_eq!(m.title, "Unknown");
    assert_eq!(m.url, "https://s.example/m/1");
    assert_eq!(m.version.as_deref(), Some("1.0"));
    assert_eq!(m.image_url.as_deref(), Some("https://s.example/i.png"));
    assert_eq!((m.id, m.site_id, m.created_at, m.updated_at), (0, 2, 8, 8));
    assert!(build_record(Some("t".to_string()), None, None, None, None, "https://s.example", 2, 8).is_none());
    assert!(build_record(Some("t".to_string()), Some(String::new()), None, None, None, "", 2, 8).is_none());
    let kept = build_record(Some("t".to_string()), Some(String::new()), None, None, None, "https://b", 2, 8).unwrap();
    assert_eq!(kept.url, "https://b");
}
