use dao::account::AccountId;
use dao::store::{Key, Store};

#[test]
fn store_insert_get_remove() {
    let mut store: Store<u32, u64> = Store::new();
    assert!(!store.contains(&1));
    assert_eq!(store.get(&1), None);
    store.insert(1, 10);
    store.insert(2, 20);
    store.insert(3, 30);
    assert_eq!(store.get(&2), Some(&20));
    store.insert(2, 21);
    assert_eq!(store.get(&2), Some(&21));
    assert_eq!(store.get(&1), Some(&10));
    assert_eq!(store.remove(&1), Some(10));
    assert_eq!(store.remove(&1), None);
    assert!(!store.contains(&1));
    assert_eq!(store.get(&2), Some(&21));
    assert_eq!(store.get(&3), Some(&30));
    assert!(store.contains(&3));
}

#[test]
fn keys_compare_by_value() {
    assert!(5u32.key_eq(&5));
    assert!(!5u32.key_eq(&6));
    assert!((1u32, 2u32).key_eq(&(1, 2)));
    assert!(!(1u32, 2u32).key_eq(&(2, 1)));
    assert!(!(1u32, 2u32).key_eq(&(1, 3)));
    assert!(AccountId::new([3; 32]).key_eq(&AccountId::new([3; 32])));
    assert!(!AccountId::new([3; 32]).key_eq(&AccountId::new([4; 32])));
}

#[test]
fn store_keyed_by_pairs() {
    let mut store: Store<(u32, u32), &str> = Store::new();
    store.insert((1, 2), "a");
    store.insert((2, 1), "b");
    assert_eq!(store.get(&(1, 2)), Some(&"a"));
    assert_eq!(store.get(&(2, 1)), Some(&"b"));
    assert_eq!(store.get(&(1, 1)), None);
}
