use bellows::message::Message;
use bellows::session::{json_session_err, MemoryStore, Session, SessionId};
use bellows::error::BellowsError;

#[test]
fn memory_store_round_trips_a_session() {
    let mut store = MemoryStore::new();
    let mut sess = Session::new();
    sess.push(Message::user("hello"));
    store.save(&sess).unwrap();
    let loaded = store.load(&sess.id).unwrap().unwrap();
    assert_eq!(loaded.history.len(), 1);
    store.delete(&sess.id).unwrap();
    assert!(store.load(&sess.id).unwrap().is_none());
}

#[test]
fn session_ids_are_ulids() {
    let id = SessionId::new();
    assert_eq!(id.as_str().len(), 26);
    assert!(id.as_str().chars().all(|c| "0123456789ABCDEFGHJKMNPQRSTVWXYZ".contains(c)));
    let other = SessionId::default();
    assert!(id != other);
    assert!(id == id.clone());
}

#[test]
fn push_returns_the_new_length() {
    let mut sess = Session::default();
    assert_eq!(sess.push(Message::user("a")), 1);
    assert_eq!(sess.push(Message::assistant("b")), 2);
    assert_eq!(sess.history[1].content, "b");
    assert!(sess.role.is_none());
    assert!(sess.meta.is_empty());
}

#[test]
fn saving_again_replaces_and_other_sessions_are_untouched() {
    let mut store = MemoryStore::default();
    let mut a = Session::new();
    let b = Session::new();
    store.save(&a).unwrap();
    store.save(&b).unwrap();
    a.push(Message::user("later"));
    store.save(&a).unwrap();
    assert_eq!(store.load(&a.id).unwrap().unwrap().history.len(), 1);
    assert_eq!(store.load(&b.id).unwrap().unwrap().history.len(), 0);
    store.delete(&a.id).unwrap();
    store.delete(&a.id).unwrap();
    assert!(store.load(&a.id).unwrap().is_none());
    assert!(store.load(&b.id).unwrap().is_some());
}

#[test]
fn json_session_error_is_prefixed() {
    let e = serde_json::from_str::<serde_json::Value>("{").unwrap_err();
    match json_session_err(e) {
        BellowsError::Session(m) => assert!(m.starts_with("serialization: ") && m.len() > 15),
        other => panic!("expected a session error, got {other:?}"),
    }
}
