//! The in-memory key store: insertion order, upsert-in-place, lookup,
//! deletion, and privacy filtering.

use armor::store::{KeyRecord, KeyStore};

fn rec(fp: &str, content: &str, is_private: bool) -> KeyRecord {
    KeyRecord {
        fingerprint: String::from(fp),
        content: String::from(content),
        is_private,
    }
}

#[test]
fn get_finds_what_put_stored() {
    let mut store = KeyStore::new();
    store.put(rec("AA", "alpha", true));
    store.put(rec("BB", "beta", false));
    assert_eq!(store.len(), 2);
    let a = store.get("AA").expect("AA present");
    assert_eq!(a.content, "alpha");
    assert!(a.is_private);
    let b = store.get("BB").expect("BB present");
    assert_eq!(b.content, "beta");
    assert!(!b.is_private);
    assert!(store.get("CC").is_none());
}

#[test]
fn put_replaces_in_place_keeping_order() {
    let mut store = KeyStore::new();
    store.put(rec("AA", "one", true));
    store.put(rec("BB", "two", true));
    store.put(rec("AA", "three", false));
    assert_eq!(store.len(), 2);
    let records = store.records();
    assert_eq!(records[0].fingerprint, "AA");
    assert_eq!(records[0].content, "three");
    assert!(!records[0].is_private);
    assert_eq!(records[1].fingerprint, "BB");
}

#[test]
fn delete_removes_exactly_the_record() {
    let mut store = KeyStore::new();
    store.put(rec("AA", "one", true));
    store.put(rec("BB", "two", true));
    assert!(store.delete("AA"));
    assert_eq!(store.len(), 1);
    assert!(store.get("AA").is_none());
    assert!(store.get("BB").is_some());
    assert!(!store.delete("AA"));
}

#[test]
fn list_filters_by_privacy_in_order() {
    let mut store = KeyStore::new();
    store.put(rec("AA", "one", true));
    store.put(rec("BB", "two", false));
    store.put(rec("CC", "three", true));
    let private = store.list(true);
    assert_eq!(private.len(), 2);
    assert_eq!(private[0].fingerprint, "AA");
    assert_eq!(private[1].fingerprint, "CC");
    let public = store.list(false);
    assert_eq!(public.len(), 1);
    assert_eq!(public[0].fingerprint, "BB");
}
