use mod_aggregator::cache::{
    cache_folder_for_url, cached_resource_name, resolve, CacheTier, CachedFolder, Resolution, ResolveError, SnapshotIndex,
};
use mod_aggregator::marker::extract_data_base_url;
use mod_aggregator::urls::{normalize_url_for_comparison, url_host_bucket, urls_prefix_related};

fn folder(name: &str, modified: u64, html: &str) -> CachedFolder {
    CachedFolder { folder: name.to_string(), modified, html: html.to_string() }
}

fn fetch_url(r: &Resolution) -> Option<String> {
    match r {
        Resolution::Fetch { url } => Some(url.clone()),
        _ => None,
    }
}

fn hit(r: &Resolution) -> Option<(CacheTier, String)> {
    match r {
        Resolution::Cached { tier, location } => Some((*tier, location.clone())),
        _ => None,
    }
}

#[test]
fn miss_everywhere_fetches_once_and_saves_one_snapshot() {
    let mut index = SnapshotIndex::new();
    let folders: Vec<CachedFolder> = Vec::new();
    let r = resolve(&index, &folders, "https://site.example/list/", Some(1), false).unwrap();
    assert_eq!(fetch_url(&r).as_deref(), Some("https://site.example/list"));
    let id = index.save(1, "https://site.example/list/", "page_1_site_example".to_string(), 1000);
    assert_eq!(id, 1);
    assert_eq!(index.len(), 1);
    assert_eq!(index.snapshots()[0].url, "https://site.example/list");
}

#[test]
fn second_request_is_served_from_exact_tier() {
    let mut index = SnapshotIndex::new();
    let folders: Vec<CachedFolder> = Vec::new();
    let mut fetches = 0;
    for round in 0..2 {
        let r = resolve(&index, &folders, "https://site.example/list", Some(4), false).unwrap();
        if let Some(key) = fetch_url(&r) {
            fetches += 1;
            index.save(4, &key, format!("page_{}", round), 10 + round);
        } else {
            assert_eq!(hit(&r), Some((CacheTier::Exact, "page_0".to_string())));
        }
    }
    assert_eq!(fetches, 1);
    assert_eq!(index.len(), 1);
}

#[test]
fn exact_tier_serves_the_latest_version() {
    let mut index = SnapshotIndex::new();
    index.save(1, "https://a.example/p", "old".to_string(), 10);
    index.save(1, "https://a.example/p", "new".to_string(), 30);
    index.save(1, "https://a.example/p", "mid".to_string(), 20);
    let r = resolve(&index, &Vec::new(), "https://a.example/p", Some(1), false).unwrap();
    assert_eq!(hit(&r), Some((CacheTier::Exact, "new".to_string())));
}

#[test]
fn deleting_a_version_keeps_the_others() {
    let mut index = SnapshotIndex::new();
    let a = index.save(1, "https://a.example/p", "a".to_string(), 10);
    let b = index.save(1, "https://a.example/p", "b".to_string(), 30);
    assert!(index.delete_version(b));
    assert!(!index.delete_version(b));
    assert_eq!(index.len(), 1);
    assert_eq!(index.snapshots()[0].id, a);
    let r = resolve(&index, &Vec::new(), "https://a.example/p", Some(1), false).unwrap();
    assert_eq!(hit(&r), Some((CacheTier::Exact, "a".to_string())));
}

#[test]
fn prefix_tier_in_both_directions() {
    let mut index = SnapshotIndex::new();
    index.save(2, "https://a.example/list", "stored".to_string(), 1);
    let longer = resolve(&index, &Vec::new(), "https://a.example/list?page=2", Some(2), false).unwrap();
    assert_eq!(hit(&longer), Some((CacheTier::Prefix, "stored".to_string())));
    let shorter = resolve(&index, &Vec::new(), "https://a.example/li", Some(2), false).unwrap();
    assert_eq!(hit(&shorter), Some((CacheTier::Prefix, "stored".to_string())));
    let other = resolve(&index, &Vec::new(), "https://a.example/other", Some(2), false).unwrap();
    assert!(fetch_url(&other).is_some());
    let other_site = resolve(&index, &Vec::new(), "https://a.example/list", Some(3), false).unwrap();
    assert!(fetch_url(&other_site).is_some());
    assert!(urls_prefix_related("ab", "abc"));
    assert!(urls_prefix_related("abc", "ab"));
    assert!(!urls_prefix_related("abc", "abd"));
}

#[test]
fn forced_refresh_always_fetches() {
    let mut index = SnapshotIndex::new();
    index.save(1, "https://a.example/p", "x".to_string(), 1);
    let r = resolve(&index, &Vec::new(), "https://a.example/p", Some(1), true).unwrap();
    assert_eq!(fetch_url(&r).as_deref(), Some("https://a.example/p"));
}

#[test]
fn empty_url_is_rejected() {
    let index = SnapshotIndex::new();
    assert_eq!(resolve(&index, &Vec::new(), "", None, false).err(), Some(ResolveError::EmptyUrl));
}

#[test]
fn marker_tier_picks_newest_matching_folder() {
    let folders = vec![
        folder("page_1_a_example", 5, r#"<html data-base-url="https://a.example/list">old</html>"#),
        folder("page_2_a_example", 9, r#"<html data-base-url="https://a.example/list/">new</html>"#),
        folder("page_3_a_example", 20, r#"<html data-base-url="https://a.example/elsewhere">x</html>"#),
        folder("page_4_b_example", 30, r#"<html data-base-url="https://a.example/list">x</html>"#),
    ];
    let r = resolve(&SnapshotIndex::new(), &folders, "https://a.example/list", None, false).unwrap();
    assert_eq!(hit(&r), Some((CacheTier::Marker, "page_2_a_example".to_string())));
}

#[test]
fn root_fallback_only_for_root_path() {
    let folders = vec![folder("page_1_a_example", 5, "<html>no marker</html>")];
    let root = resolve(&SnapshotIndex::new(), &folders, "https://a.example/", None, false).unwrap();
    assert_eq!(hit(&root), Some((CacheTier::RootFallback, "page_1_a_example".to_string())));
    let deep = resolve(&SnapshotIndex::new(), &folders, "https://a.example/deep", None, false).unwrap();
    assert_eq!(fetch_url(&deep).as_deref(), Some("https://a.example/deep"));
}

#[test]
fn marker_tier_comes_before_root_fallback() {
    let folders = vec![
        folder("page_9_a_example", 50, "<html>no marker</html>"),
        folder("page_1_a_example", 5, r#"<body data-base-url='https://a.example/'>m</body>"#),
    ];
    let r = resolve(&SnapshotIndex::new(), &folders, "https://a.example/", None, false).unwrap();
    assert_eq!(hit(&r), Some((CacheTier::Marker, "page_1_a_example".to_string())));
}

#[test]
fn unparsable_url_skips_folder_tiers() {
    let folders = vec![folder("page_1_x", 1, "<html></html>")];
    let r = resolve(&SnapshotIndex::new(), &folders, "not a url", None, false).unwrap();
    assert_eq!(fetch_url(&r).as_deref(), Some("not a url"));
}

#[test]
fn normalization() {
    assert_eq!(normalize_url_for_comparison("https://a.example/x/"), "https://a.example/x");
    assert_eq!(normalize_url_for_comparison("https://a.example/"), "https://a.example/");
    assert_eq!(normalize_url_for_comparison("https://a.example"), "https://a.example/");
    assert_eq!(normalize_url_for_comparison("HTTPS://A.Example/Path"), "https://a.example/Path");
    assert_eq!(normalize_url_for_comparison("not a url"), "not a url");
    assert_eq!(normalize_url_for_comparison(""), "");
}

#[test]
fn normalization_is_idempotent_on_examples() {
    for u in ["https://a.example/x/", "https://a.example/", "http://b.example/a/b/?q=1", "nope", "https://c.example/x?y=/"] {
        let once = normalize_url_for_comparison(u);
        assert_eq!(normalize_url_for_comparison(&once), once);
    }
}

#[test]
fn host_buckets() {
    assert_eq!(url_host_bucket("https://www.site.example/a").as_deref(), Some("www_site_example"));
    assert_eq!(url_host_bucket("HTTP://A.B.Example:8080/x").as_deref(), Some("a_b_example"));
    assert_eq!(url_host_bucket("data:text/plain,hi").as_deref(), Some("unknown"));
    assert_eq!(url_host_bucket("::"), None);
}

#[test]
fn origin_marker_forms() {
    assert_eq!(extract_data_base_url(r#"<html data-base-url="https://a.example/p">"#).as_deref(), Some("https://a.example/p"));
    assert_eq!(extract_data_base_url("<html data-base-url = 'https://a.example/q'>").as_deref(), Some("https://a.example/q"));
    assert_eq!(extract_data_base_url("<html data-base-url=https://a.example/r>").as_deref(), Some("https://a.example/r"));
    assert_eq!(extract_data_base_url("<html>").as_deref(), None);
}

#[test]
fn newest_folder_of_host() {
    let folders = vec![
        folder("page_1_a_example", 5, ""),
        folder("page_2_a_example", 7, ""),
        folder("other_a_example", 9, ""),
        folder("page_3_b_example", 11, ""),
    ];
    assert_eq!(cache_folder_for_url(&folders, "https://a.example/z").as_deref(), Some("page_2_a_example"));
    assert_eq!(cache_folder_for_url(&folders, "https://c.example/").as_deref(), None);
    assert_eq!(cache_folder_for_url(&folders, "nope").as_deref(), None);
}

#[test]
fn cached_resource_names() {
    assert_eq!(cached_resource_name("https://a.example/css/site.min.css?v=2").as_deref(), Some("site.min.css"));
    assert_eq!(cached_resource_name("https://a.example/").as_deref(), None);
    assert_eq!(cached_resource_name("nope").as_deref(), None);
}

#[test]
fn restoring_snapshots_from_storage() {
    let mut index = SnapshotIndex::new();
    let s = mod_aggregator::cache::PageSnapshot {
        id: 40,
        site_id: 1,
        url: "https://a.example/p".to_string(),
        location: "page_40".to_string(),
        version: 5,
    };
    assert!(index.insert_existing(s.clone()));
    assert!(!index.insert_existing(s));
    assert_eq!(index.save(1, "https://a.example/q", "page_41".to_string(), 6), 41);
}
