use mod_aggregator::files::{check_size, resource_file_name, sanitize_relative_path, TooLarge, MAX_PAGE_BYTES, MAX_RESOURCE_BYTES};
use mod_aggregator::model::ModUpdate;
use mod_aggregator::notify::{notification_for, update_message};

#[test]
fn relative_paths_are_cleaned() {
    assert_eq!(sanitize_relative_path("page_1_a/index.html"), "page_1_a/index.html");
    assert_eq!(sanitize_relative_path("../../etc/passwd"), "etc/passwd");
    assert_eq!(sanitize_relative_path("a\\b//./c d/"), "a/b/cd");
    assert_eq!(sanitize_relative_path("..."), "...");
    assert_eq!(sanitize_relative_path("/./../"), "");
}

#[test]
fn resource_names() {
    assert_eq!(resource_file_name("https://a.example/img/logo.png?x=1").as_deref(), Some("logo.png"));
    assert_eq!(resource_file_name("https://a.example/img/").as_deref(), None);
    assert_eq!(resource_file_name("https://a.example/i/a b$c.css").as_deref(), Some("abc.css"));
    assert_eq!(resource_file_name("plain").as_deref(), Some("plain"));
}

#[test]
fn size_bounds() {
    assert_eq!(check_size(MAX_PAGE_BYTES, MAX_PAGE_BYTES), Ok(()));
    assert_eq!(check_size(MAX_PAGE_BYTES + 1, MAX_PAGE_BYTES), Err(TooLarge { megabytes: 10 }));
    assert_eq!(check_size(12 * 1024 * 1024, MAX_RESOURCE_BYTES), Err(TooLarge { megabytes: 12 }));
    assert_eq!(check_size(0, MAX_RESOURCE_BYTES), Ok(()));
}

fn update(old: Option<&str>, new: Option<&str>) -> ModUpdate {
    ModUpdate {
        mod_id: 3,
        site_id: 4,
        old_version: old.map(|s| s.to_string()),
        new_version: new.map(|s| s.to_string()),
        changes: None,
    }
}

#[test]
fn update_messages() {
    assert_eq!(update_message(&update(Some("1.0"), Some("1.1"))), "Версия изменена: 1.0 → 1.1");
    assert_eq!(update_message(&update(None, Some("1.1"))), "Мод обновлен");
    assert_eq!(update_message(&update(Some("1.0"), None)), "Мод обновлен");
}

#[test]
fn notice_for_update() {
    let n = notification_for(&update(Some("a"), Some("b")), 77);
    assert_eq!(n.id, 0);
    assert_eq!(n.mod_id, 3);
    assert_eq!(n.site_id, 4);
    assert_eq!(n.title, "Обновление мода");
    assert_eq!(n.message, "Версия изменена: a → b");
    assert!(!n.read);
    assert_eq!(n.created_at, 77);
}
