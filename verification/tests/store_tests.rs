use chat_relay::admin;
use chat_relay::credentials::User;
use chat_relay::messages::{AuthUser, Message, MessagePayload};
use chat_relay::store::MemoryDb;

fn user(name: &str, password: &str) -> User {
    User::try_from(AuthUser::new(name, password)).expect("salt source available")
}

#[test]
fn insert_then_get_user_matches() {
    let mut db = MemoryDb::new();
    let alice = user("alice", "pw1");
    db.insert_user(&alice).unwrap();
    let fetched = db.get_user("alice").expect("row exists");
    assert_eq!(fetched.id, alice.id);
    assert_eq!(fetched.username, "alice");
    assert_eq!(fetched.salt, alice.salt);
    assert_eq!(fetched.password, alice.password);
}

#[test]
fn duplicate_username_is_rejected() {
    let mut db = MemoryDb::new();
    db.insert_user(&user("alice", "pw1")).unwrap();
    assert!(db.insert_user(&user("alice", "pw2")).is_err());
    assert_eq!(db.get_users().len(), 1);
}

#[test]
fn get_user_absent_is_none() {
    let db = MemoryDb::new();
    assert!(db.get_user("nobody").is_none());
}

#[test]
fn history_read_is_bounded_to_fifty_rows() {
    let mut db = MemoryDb::new();
    let alice = user("alice", "pw");
    db.insert_user(&alice).unwrap();
    for i in 0..60 {
        let msg = Message::new(MessagePayload::Text(format!("m{}", i)));
        db.insert_message(&msg, alice.id).unwrap();
    }
    let rows = db.get_messages("");
    assert_eq!(rows.len(), 50);
    for w in rows.windows(2) {
        assert!(w[0].timestamp >= w[1].timestamp);
    }
}

#[test]
fn history_read_with_unmatched_prefix_is_empty() {
    let mut db = MemoryDb::new();
    let alice = user("alice", "pw");
    db.insert_user(&alice).unwrap();
    let msg = Message::new(MessagePayload::Text("hello".to_string()));
    db.insert_message(&msg, alice.id).unwrap();
    assert!(db.get_messages("zz").is_empty());
    assert_eq!(db.get_messages("al").len(), 1);
    assert_eq!(db.get_messages("al")[0].text, "hello");
    assert_eq!(db.get_messages("al")[0].username, "alice");
}

#[test]
fn delete_unknown_user_is_not_found() {
    let mut db = MemoryDb::new();
    db.insert_user(&user("alice", "pw")).unwrap();
    let status = admin::delete_user(&mut db, 123456789);
    assert_eq!(status, 404);
    assert_eq!(db.get_users().len(), 1);
}

#[test]
fn delete_known_user_is_no_content() {
    let mut db = MemoryDb::new();
    let alice = user("alice", "pw");
    db.insert_user(&alice).unwrap();
    let status = admin::delete_user(&mut db, alice.id);
    assert_eq!(status, 204);
    assert!(db.get_users().is_empty());
}

#[test]
fn delete_removes_exactly_one_row_and_keeps_the_rest() {
    let mut db = MemoryDb::new();
    let alice = user("alice", "pw");
    let bob = user("bob", "pw");
    db.insert_user(&alice).unwrap();
    db.insert_user(&bob).unwrap();
    assert_eq!(admin::delete_user(&mut db, alice.id), 204);
    let remaining = db.get_users();
    assert_eq!(remaining.len(), 1);
    assert_eq!(remaining[0].id, bob.id);
    assert!(db.get_user("alice").is_none());
    assert!(db.get_user("bob").is_some());
}

#[test]
fn health_check_is_ok() {
    assert_eq!(admin::health_check(), 200);
}

#[test]
fn user_enumeration_reflects_persistence() {
    let mut db = MemoryDb::new();
    let alice = user("alice", "pw");
    db.insert_user(&alice).unwrap();
    let listed = admin::get_users(&db);
    assert_eq!(listed.len(), 1);
    assert_eq!(listed[0].id, alice.id);
    assert_eq!(listed[0].username, "alice");
}
