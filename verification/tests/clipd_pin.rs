use mde::clipd::pin::{pin_store_path, PinStore};

#[test]
fn pin_is_idempotent() {
    let mut store = PinStore::default();
    store.pin("ULID-A");
    store.pin("ULID-A");
    assert_eq!(store.pinned.len(), 1);
}

#[test]
fn unpin_removes_entry() {
    let mut store = PinStore::default();
    store.pin("ULID-A");
    store.unpin("ULID-A");
    assert!(!store.is_pinned("ULID-A"));
}

#[test]
fn unpin_nonexistent_is_noop() {
    let mut store = PinStore::default();
    store.unpin("ULID-NEVER-SEEN");
    assert!(store.pinned.is_empty());
}

#[test]
fn is_pinned_false_by_default() {
    let store = PinStore::default();
    assert!(!store.is_pinned("ULID-X"));
}

#[test]
fn pin_store_path_is_under_data_home() {
    let base = "/home/user/.local/share";
    let p = pin_store_path(base);
    assert!(p.starts_with(base));
    assert!(p.ends_with("pins.json"));
    assert_eq!(p, "/home/user/.local/share/mde/clipboard/pins.json");
}

#[test]
fn pin_keeps_others_and_unpin_only_its_own() {
    let mut store = PinStore::default();
    store.pin("A");
    store.pin("B");
    store.pin("C");
    store.unpin("B");
    assert!(store.is_pinned("A"));
    assert!(!store.is_pinned("B"));
    assert!(store.is_pinned("C"));
    assert_eq!(store.pinned.len(), 2);
}
