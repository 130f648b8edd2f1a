use ledger_runtime::store::KeyedStore;

#[test]
fn store_keeps_one_value_per_key() {
    let mut store: KeyedStore<u32> = KeyedStore::new();
    let a = "a".to_string();
    let b = "b".to_string();
    assert_eq!(store.get(&a), None);
    assert!(!store.contains_key(&a));
    store.insert(a.clone(), 1);
    store.insert(b.clone(), 2);
    store.insert(a.clone(), 3);
    assert_eq!(store.get(&a), Some(&3));
    assert_eq!(store.get(&b), Some(&2));
    assert!(store.contains_key(&b));
    store.remove(&a);
    assert_eq!(store.get(&a), None);
    assert_eq!(store.get(&b), Some(&2));
    store.remove(&a);
    assert_eq!(store.get(&b), Some(&2));
    store.insert(a.clone(), 4);
    assert_eq!(store.get(&a), Some(&4));
}

#[test]
fn store_tells_keys_apart_by_their_text() {
    let mut store: KeyedStore<u32> = KeyedStore::new();
    store.insert("".to_string(), 1);
    store.insert("a".to_string(), 2);
    store.insert("ab".to_string(), 3);
    assert_eq!(store.get(&String::new()), Some(&1));
    assert_eq!(store.get(&"a".to_string()), Some(&2));
    assert_eq!(store.get(&"ab".to_string()), Some(&3));
    assert_eq!(store.get(&"b".to_string()), None);
}
