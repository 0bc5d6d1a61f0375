//! The asset registry: handle allocation, pending tracking, loading.

use water_engine::registry::AssetStore;

#[test]
fn require_twice_returns_same_handle() {
    let mut store: AssetStore<i32> = AssetStore::new();
    let h1 = store.require("a.png".to_owned());
    let h2 = store.require("a.png".to_owned());
    assert_eq!(h1, 0);
    assert_eq!(h2, 0);
}

#[test]
fn handles_assigned_in_first_seen_order() {
    let mut store: AssetStore<i32> = AssetStore::new();
    assert_eq!(store.require("a".to_owned()), 0);
    assert_eq!(store.require("b".to_owned()), 1);
    assert_eq!(store.require("a".to_owned()), 0);
    assert_eq!(store.require("c".to_owned()), 2);
    assert_eq!(store.require("b".to_owned()), 1);
    assert_eq!(store.slot_count(), 3);
}

#[test]
fn consume_loading_drains_once() {
    let mut store: AssetStore<i32> = AssetStore::new();
    store.require("a".to_owned());
    store.require("b".to_owned());
    store.require("a".to_owned());
    let first = store.consume_loading();
    assert_eq!(first, vec!["a".to_owned(), "b".to_owned()]);
    let second = store.consume_loading();
    assert!(second.is_empty());
}

#[test]
fn get_is_none_until_loaded() {
    let mut store: AssetStore<i32> = AssetStore::new();
    let h = store.require("a".to_owned());
    assert_eq!(store.get(h), None);
    assert_eq!(store.get(999), None);
    store.load("a", 41);
    assert_eq!(store.get(h), Some(&41));
}

#[test]
fn require_load_get_round_trip() {
    let mut store: AssetStore<String> = AssetStore::new();
    let h = store.require("a.png".to_owned());
    store.load("a.png", "texels".to_owned());
    assert_eq!(store.get(h), Some(&"texels".to_owned()));
}

#[test]
fn load_overwrites_slot() {
    let mut store: AssetStore<i32> = AssetStore::new();
    let h = store.require("a".to_owned());
    store.load("a", 1);
    store.load("a", 2);
    assert_eq!(store.get(h), Some(&2));
}

#[test]
fn insert_binds_new_slot_and_shadows() {
    let mut store: AssetStore<i32> = AssetStore::new();
    let h = store.require("m".to_owned());
    store.load("m", 10);
    store.insert("m".to_owned(), 20);
    // The old slot still exists under the old handle; the name now maps to
    // the new slot.
    assert_eq!(store.get(h), Some(&10));
    let h2 = store.require("m".to_owned());
    assert_eq!(h2, 1);
    assert_eq!(store.get(h2), Some(&20));
}

#[test]
fn require_after_consume_starts_fresh_batch() {
    let mut store: AssetStore<i32> = AssetStore::new();
    store.require("a".to_owned());
    store.consume_loading();
    // Already-known names do not become pending again.
    store.require("a".to_owned());
    assert!(store.consume_loading().is_empty());
    // New names do.
    store.require("b".to_owned());
    assert_eq!(store.consume_loading(), vec!["b".to_owned()]);
}
