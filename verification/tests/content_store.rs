use data_escrow::content_store::ContentStore;

#[test]
fn new_store_is_empty() {
    let store = ContentStore::new();
    assert_eq!(store.len(), 0);
    assert_eq!(store.get(0), None);
}

#[test]
fn put_allocates_keys_from_zero_upwards() {
    let mut store = ContentStore::new();
    assert_eq!(store.put(b"first".to_vec()), 0);
    assert_eq!(store.put(b"second".to_vec()), 1);
    assert_eq!(store.put(Vec::new()), 2);
    assert_eq!(store.len(), 3);
}

#[test]
fn get_returns_exactly_what_was_put() {
    let mut store = ContentStore::new();
    let key = store.put(b"real-data".to_vec());
    assert_eq!(store.get(key), Some(&b"real-data".to_vec()));
}

#[test]
fn get_of_unknown_key_is_none() {
    let mut store = ContentStore::new();
    store.put(b"only".to_vec());
    assert_eq!(store.get(1), None);
    assert_eq!(store.get(u64::MAX), None);
}

#[test]
fn put_leaves_earlier_entries_alone() {
    let mut store = ContentStore::new();
    let first = store.put(b"one".to_vec());
    let second = store.put(b"two".to_vec());
    store.put(b"one".to_vec());
    assert_eq!(store.get(first), Some(&b"one".to_vec()));
    assert_eq!(store.get(second), Some(&b"two".to_vec()));
}

#[test]
fn equal_payloads_get_distinct_keys() {
    let mut store = ContentStore::new();
    let first = store.put(b"same".to_vec());
    let second = store.put(b"same".to_vec());
    assert_ne!(first, second);
    assert_eq!(store.get(first), store.get(second));
}
