use mod_aggregator::detect::{change_event, classify, merge_update, Classification, RecordStore};
use mod_aggregator::model::Mod;

fn record(url: &str, version: &str, updated_at: i64) -> Mod {
    Mod {
        id: 0,
        site_id: 1,
        title: format!("t{}", version),
        url: url.to_string(),
        version: Some(version.to_string()),
        author: None,
        description: None,
        image_url: None,
        changes: Some(format!("changes {}", version)),
        created_at: updated_at,
        updated_at,
    }
}

const U1: &str = "https://site.example/m/1";

#[test]
fn second_run_with_later_version_reports_one_change() {
    let mut store = RecordStore::new();
    let first = store.detect(&vec![record(U1, "1.0", 100)], 1);
    assert!(first.is_empty());
    let second = store.detect(&vec![record(U1, "1.1", 200)], 1);
    assert_eq!(second.len(), 1);
    assert_eq!(second[0].old_version.as_deref(), Some("1.0"));
    assert_eq!(second[0].new_version.as_deref(), Some("1.1"));
    assert_eq!(second[0].changes.as_deref(), Some("changes 1.1"));
    assert_eq!(second[0].site_id, 1);
    let stored = store.get_by_url(&U1.to_string()).unwrap();
    assert_eq!(second[0].mod_id, stored.id);
    assert_eq!(stored.version.as_deref(), Some("1.1"));
    assert_eq!(stored.created_at, 100);
    assert_eq!(stored.updated_at, 200);
}

#[test]
fn equal_or_earlier_timestamps_never_emit() {
    let mut store = RecordStore::new();
    store.detect(&vec![record(U1, "1.0", 100)], 1);
    assert!(store.detect(&vec![record(U1, "2.0", 100)], 1).is_empty());
    assert!(store.detect(&vec![record(U1, "3.0", 50)], 1).is_empty());
    assert_eq!(store.get_by_url(&U1.to_string()).unwrap().version.as_deref(), Some("1.0"));
}

#[test]
fn first_sight_is_stored_without_event() {
    let mut store = RecordStore::new();
    let ev = store.detect(&vec![record(U1, "1.0", 1), record("https://site.example/m/2", "1.0", 1)], 1);
    assert!(ev.is_empty());
    assert_eq!(store.records().len(), 2);
    assert_eq!(store.records()[0].id, 1);
    assert_eq!(store.records()[1].id, 2);
}

#[test]
fn events_follow_candidate_order() {
    let mut store = RecordStore::new();
    let a = "https://s.example/a";
    let b = "https://s.example/b";
    store.detect(&vec![record(a, "1", 1), record(b, "1", 1)], 1);
    let ev = store.detect(&vec![record(b, "2", 2), record(a, "2", 2)], 1);
    assert_eq!(ev.len(), 2);
    assert_eq!(ev[0].mod_id, 2);
    assert_eq!(ev[1].mod_id, 1);
}

#[test]
fn same_url_twice_in_one_batch() {
    let mut store = RecordStore::new();
    let ev = store.detect(&vec![record(U1, "1", 1), record(U1, "2", 2)], 1);
    assert_eq!(ev.len(), 1);
    assert_eq!(ev[0].old_version.as_deref(), Some("1"));
    assert_eq!(store.records().len(), 1);
}

#[test]
fn classification() {
    let old = record(U1, "1", 10);
    assert_eq!(matches!(classify(None, &old), Classification::New), true);
    assert!(matches!(classify(Some(&old), &record(U1, "2", 11)), Classification::Updated));
    assert!(matches!(classify(Some(&old), &record(U1, "2", 10)), Classification::Unchanged));
    assert!(matches!(classify(Some(&old), &record(U1, "2", 9)), Classification::Unchanged));
}

#[test]
fn merge_keeps_identity() {
    let mut old = record(U1, "1", 10);
    old.id = 5;
    old.site_id = 3;
    let newer = record(U1, "2", 20);
    let m = merge_update(&old, &newer);
    assert_eq!(m.id, 5);
    assert_eq!(m.site_id, 3);
    assert_eq!(m.created_at, 10);
    assert_eq!(m.updated_at, 20);
    assert_eq!(m.title, "t2");
    let e = change_event(&old, &newer, 8);
    assert_eq!(e.mod_id, 5);
    assert_eq!(e.site_id, 8);
    assert_eq!(e.old_version.as_deref(), Some("1"));
    assert_eq!(e.new_version.as_deref(), Some("2"));
}

#[test]
fn store_put_and_update() {
    let mut store = RecordStore::new();
    assert_eq!(store.put(&record(U1, "1", 10)), Some(1));
    assert_eq!(store.put(&record(U1, "2", 20)), None);
    assert_eq!(store.put(&record("https://s.example/x", "1", 10)), Some(2));
    assert!(store.update(1, &record(U1, "3", 30)));
    assert!(!store.update(9, &record(U1, "4", 40)));
    let stored = store.get_by_url(&U1.to_string()).unwrap();
    assert_eq!(stored.version.as_deref(), Some("3"));
    assert_eq!(stored.id, 1);
    assert_eq!(stored.created_at, 10);
    assert_eq!(stored.updated_at, 30);
    assert!(store.get_by_url(&"https://s.example/none".to_string()).is_none());
}
