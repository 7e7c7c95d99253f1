use squads_core::keyed::KeyedStore;
use squads_core::text::{decimal, same_text};

#[test]
fn decimal_writes_numerals_without_leading_zeros() {
    assert_eq!(decimal(0), "0");
    assert_eq!(decimal(9), "9");
    assert_eq!(decimal(10), "10");
    assert_eq!(decimal(109), "109");
    assert_eq!(decimal(4096), "4096");
    assert_eq!(decimal(usize::MAX), format!("{}", usize::MAX));
}

#[test]
fn decimal_agrees_with_formatting_on_a_range() {
    for n in 0..2000usize {
        assert_eq!(decimal(n), format!("{}", n));
    }
}

#[test]
fn same_text_compares_contents() {
    assert!(same_text("abc", "abc"));
    assert!(!same_text("abc", "abd"));
    assert!(!same_text("abc", "ab"));
    assert!(same_text("", ""));
}

#[test]
fn keyed_store_binds_replaces_and_unbinds() {
    let mut store: KeyedStore<u32> = KeyedStore::new();
    assert_eq!(store.get("a"), None);
    assert!(!store.contains("a"));
    store.insert("a", 1);
    store.insert("b", 2);
    assert_eq!(store.get("a"), Some(&1));
    assert_eq!(store.get("b"), Some(&2));
    store.insert("a", 3);
    assert_eq!(store.get("a"), Some(&3));
    assert_eq!(store.get("b"), Some(&2));
    store.remove("a");
    assert_eq!(store.get("a"), None);
    assert!(store.contains("b"));
    store.remove("missing");
    assert_eq!(store.get("b"), Some(&2));
}
