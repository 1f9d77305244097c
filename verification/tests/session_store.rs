use recurio::session::SessionRecord;
use recurio::session_store::{MemoryStore, SessionBackend};

const NOW: i64 = 1_700_000_000;

fn test_store() -> MemoryStore {
    let store = MemoryStore::new();
    store.migrate().expect("migrating a session store");
    store
}

#[test]
fn creating_a_new_session_with_no_expiry() {
    let mut store = test_store();
    let mut session = SessionRecord::new();
    session.insert("key".to_string(), "value".to_string());
    let original_id = session.id().to_string();
    let cookie_value = store.store_session(session).unwrap().unwrap();

    assert_eq!(1, store.count().unwrap());

    let loaded_session = store.load_session(&cookie_value, NOW).unwrap().unwrap();
    assert_eq!(original_id, loaded_session.id());
    assert_eq!("value", loaded_session.get("key").unwrap());
    assert!(loaded_session.expiry().is_none());
    assert!(!loaded_session.is_expired(NOW));
}

#[test]
fn updating_a_session() {
    let mut store = test_store();
    let mut session = SessionRecord::new();
    let original_id = session.id().to_string();

    session.insert("key".to_string(), "value".to_string());
    let cookie_value = store.store_session(session).unwrap().unwrap();

    let mut session = store.load_session(&cookie_value, NOW).unwrap().unwrap();
    session.insert("key".to_string(), "other value".to_string());
    assert_eq!(None, store.store_session(session).unwrap());

    let session = store.load_session(&cookie_value, NOW).unwrap().unwrap();
    assert_eq!(session.get("key").unwrap(), "other value");

    assert_eq!(1, store.count().unwrap());
    assert_eq!(original_id, session.id());
}

#[test]
fn updating_a_session_extending_expiry() {
    let mut store = test_store();
    let mut session = SessionRecord::new();
    session.expire_in(NOW, 10);
    let original_id = session.id().to_string();
    let original_expires = session.expiry().unwrap();
    let cookie_value = store.store_session(session).unwrap().unwrap();

    let mut session = store.load_session(&cookie_value, NOW).unwrap().unwrap();
    assert_eq!(session.expiry().unwrap(), original_expires);
    session.expire_in(NOW, 20);
    let new_expires = session.expiry().unwrap();
    store.store_session(session).unwrap();

    let session = store.load_session(&cookie_value, NOW).unwrap().unwrap();
    assert_eq!(session.expiry().unwrap(), new_expires);

    assert_eq!(1, store.count().unwrap());
    assert_eq!(original_id, session.id());
    assert_eq!(new_expires, NOW + 20);
}

#[test]
fn creating_a_new_session_with_expiry() {
    let mut store = test_store();
    let mut session = SessionRecord::new();
    session.expire_in(NOW, 1);
    session.insert("key".to_string(), "value".to_string());
    let original_id = session.id().to_string();

    let cookie_value = store.store_session(session).unwrap().unwrap();

    assert_eq!(1, store.count().unwrap());

    let loaded_session = store.load_session(&cookie_value, NOW).unwrap().unwrap();
    assert_eq!(original_id, loaded_session.id());
    assert_eq!("value", loaded_session.get("key").unwrap());
    assert!(!loaded_session.is_expired(NOW));

    // 1.1 seconds later the session has lapsed.
    assert!(store.load_session(&cookie_value, NOW + 2).unwrap().is_none());
}

#[test]
fn destroying_a_single_session() {
    let mut store = test_store();
    for _ in 0..3i8 {
        store.store_session(SessionRecord::new()).unwrap();
    }

    let cookie = store.store_session(SessionRecord::new()).unwrap().unwrap();
    assert_eq!(4, store.count().unwrap());
    let session = store.load_session(&cookie, NOW).unwrap().unwrap();
    store.destroy_session(session.id()).unwrap();
    assert!(store.load_session(&cookie, NOW).unwrap().is_none());
    assert_eq!(3, store.count().unwrap());

    // attempting to destroy the session again is not an error
    assert!(store.destroy_session(session.id()).is_ok());
    assert_eq!(3, store.count().unwrap());
}

#[test]
fn clearing_the_whole_store() {
    let mut store = test_store();
    for _ in 0..3i8 {
        store.store_session(SessionRecord::new()).unwrap();
    }

    assert_eq!(3, store.count().unwrap());
    store.clear_store().unwrap();
    assert_eq!(0, store.count().unwrap());
}

#[test]
fn stored_payload_is_returned_then_gone_after_clear() {
    let mut store = test_store();
    let mut session = SessionRecord::new();
    session.insert("k".to_string(), "v".to_string());
    let cookie = store.store_session(session).unwrap().unwrap();

    let loaded = store.load_session(&cookie, NOW).unwrap().unwrap();
    assert_eq!("v", loaded.get("k").unwrap());

    store.clear_store().unwrap();
    assert!(store.load_session(&cookie, NOW).unwrap().is_none());
}

#[test]
fn expired_row_is_invisible_but_still_present() {
    let mut store = test_store();
    let mut session = SessionRecord::new();
    session.expire_in(NOW, 1);
    let cookie = store.store_session(session).unwrap().unwrap();

    // 1.1 seconds later: the load sees nothing ...
    assert!(store.load_session(&cookie, NOW + 2).unwrap().is_none());
    // ... but the row physically exists until an explicit destroy.
    assert_eq!(1, store.count().unwrap());
    let id = recurio::cookie::decode_cookie(&cookie).unwrap();
    store.destroy_session(&id).unwrap();
    assert_eq!(0, store.count().unwrap());
}

#[test]
fn two_stores_for_one_id_leave_one_row_with_the_later_write() {
    let mut store = test_store();
    let mut first = SessionRecord::new();
    first.insert("k".to_string(), "first".to_string());
    let cookie = store.store_session(first).unwrap().unwrap();

    let mut second = store.load_session(&cookie, NOW).unwrap().unwrap();
    second.insert("k".to_string(), "second".to_string());
    store.store_session(second).unwrap();

    assert_eq!(1, store.count().unwrap());
    let survivor = store.load_session(&cookie, NOW).unwrap().unwrap();
    assert_eq!("second", survivor.get("k").unwrap());
}

#[test]
fn fresh_session_ids_differ() {
    let a = SessionRecord::new();
    let b = SessionRecord::new();
    assert_ne!(a.id(), b.id());
}

#[test]
fn payload_insert_replaces_and_remove_deletes() {
    let mut session = SessionRecord::new();
    assert!(session.get("k").is_none());
    session.insert("k".to_string(), "a".to_string());
    session.insert("k".to_string(), "b".to_string());
    assert_eq!("b", session.get("k").unwrap());
    session.remove("k");
    assert!(session.get("k").is_none());
    assert!(session.data_changed());
}

#[test]
fn validate_drops_expired_sessions() {
    let mut session = SessionRecord::new();
    session.set_expiry(Some(NOW + 1));
    assert!(session.duplicate().validate(NOW).is_some());
    assert!(session.validate(NOW + 1).is_none());
}

#[test]
fn fresh_session_surrenders_its_cookie_once() {
    let mut session = SessionRecord::new();
    let first = session.take_cookie_value();
    assert!(first.is_some());
    assert!(session.take_cookie_value().is_none());
    assert!(session.into_cookie_value().is_none());

    let session = SessionRecord::new();
    let cookie = session.into_cookie_value().unwrap();
    assert!(recurio::cookie::decode_cookie(&cookie).is_ok());
}

#[test]
fn reset_data_changed_clears_the_dirty_flag() {
    let mut session = SessionRecord::new();
    session.insert("a".to_string(), "b".to_string());
    assert!(session.data_changed());
    session.reset_data_changed();
    assert!(!session.data_changed());
}
