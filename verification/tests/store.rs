use auto_anime::filter::{KVStore, Key, StoreError};
use auto_anime::subscriber::SubscriberSrc;

fn open_store(name: &str) -> KVStore {
    let path = format!("/tmp/auto_anime_test_{}", name);
    KVStore::new(&path).expect("store should open")
}

#[test]
fn filter_idempotent_per_key() {
    // P-style scenario: the same (entry, subscriber) fingerprint is new on
    // the first observation and seen on the second.
    let mut store = open_store("idempotent");
    let key = Key::new(
        String::from("Episode 1"),
        String::from("guid-1"),
        SubscriberSrc::Email(String::from("a@example.com")),
    );
    store.remove(&key).unwrap();
    let first = store.get_or_insert(key.clone()).unwrap();
    assert!(first.is_none());
    let second = store.get_or_insert(key.clone()).unwrap();
    assert!(second.is_some());
    store.remove(&key).unwrap();
}

#[test]
fn rollback_restores_novelty() {
    let mut store = open_store("rollback");
    let key = Key::new(
        String::from("Episode 2"),
        String::from("guid-2"),
        SubscriberSrc::PikPak,
    );
    store.remove(&key).unwrap();
    assert!(store.get_or_insert(key.clone()).unwrap().is_none());
    // simulate a failed delivery, then roll the fingerprint back
    store.remove(&key).unwrap();
    assert!(store.get_or_insert(key.clone()).unwrap().is_none());
    store.remove(&key).unwrap();
}

#[test]
fn per_subscriber_isolation() {
    let mut store = open_store("isolation");
    let k1 = Key::new(
        String::from("Episode 3"),
        String::from("guid-3"),
        SubscriberSrc::Email(String::from("a@example.com")),
    );
    let k2 = Key::new(
        String::from("Episode 3"),
        String::from("guid-3"),
        SubscriberSrc::PikPak,
    );
    store.remove(&k1).unwrap();
    store.remove(&k2).unwrap();
    // marking seen for one subscriber does not affect novelty for the other
    assert!(store.get_or_insert(k1.clone()).unwrap().is_none());
    assert!(store.get(&k2).unwrap().is_none());
    assert!(store.get_or_insert(k2.clone()).unwrap().is_none());
    assert!(store.get_or_insert(k1.clone()).unwrap().is_some());
    assert!(store.get_or_insert(k2.clone()).unwrap().is_some());
    store.remove(&k1).unwrap();
    store.remove(&k2).unwrap();
}

#[test]
fn stored_time_round_trips_exactly() {
    let mut store = open_store("roundtrip");
    let key = Key::new(
        String::from("Episode 4"),
        String::from("guid-4"),
        SubscriberSrc::PikPak,
    );
    store.insert(key.clone(), 123_456_789).unwrap();
    assert_eq!(store.get(&key).unwrap(), Some(123_456_789));
    store.insert(key.clone(), u64::MAX).unwrap();
    assert_eq!(store.get(&key).unwrap(), Some(u64::MAX));
    store.remove(&key).unwrap();
    assert_eq!(store.get(&key).unwrap(), None);
}

#[test]
fn key_encoding_exact_bytes() {
    // remote-upload channel, both strings empty: tag byte then two zero
    // length prefixes
    let k = Key::new(String::new(), String::new(), SubscriberSrc::PikPak);
    let mut expected = vec![1u8];
    expected.extend_from_slice(&[0u8; 8]);
    expected.extend_from_slice(&[0u8; 8]);
    assert_eq!(k.encode(), expected);

    // mail channel: tag, then address, title and identifier, each with its
    // little-endian length prefix
    let k2 = Key::new(
        String::from("a"),
        String::from("b"),
        SubscriberSrc::Email(String::from("c")),
    );
    let mut expected2 = vec![0u8];
    expected2.extend_from_slice(&[1, 0, 0, 0, 0, 0, 0, 0]);
    expected2.push(b'c');
    expected2.extend_from_slice(&[1, 0, 0, 0, 0, 0, 0, 0]);
    expected2.push(b'a');
    expected2.extend_from_slice(&[1, 0, 0, 0, 0, 0, 0, 0]);
    expected2.push(b'b');
    assert_eq!(k2.encode(), expected2);
}

#[test]
fn encoding_is_deterministic_and_distinguishes_subscribers() {
    let mk = |sub: SubscriberSrc| {
        Key::new(String::from("same title"), String::from("same guid"), sub)
    };
    let e1 = mk(SubscriberSrc::Email(String::from("x@example.com"))).encode();
    let e2 = mk(SubscriberSrc::Email(String::from("x@example.com"))).encode();
    let p = mk(SubscriberSrc::PikPak).encode();
    assert_eq!(e1, e2);
    assert_ne!(e1, p);
}

#[test]
fn store_open_failure_is_backend_error() {
    let r = KVStore::new("/dev/null/not_a_directory");
    assert!(matches!(r, Err(StoreError::Backend)));
}
