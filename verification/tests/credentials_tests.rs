use base64::Engine;
use chat_relay::credentials::User;
use chat_relay::messages::AuthUser;

#[test]
fn fresh_credentials_verify_their_own_password() {
    let user = User::try_from(AuthUser::new("alice", "pw1")).unwrap();
    assert!(user.verify_user_password(b"pw1"));
    assert!(!user.verify_user_password(b"pw2"));
    assert!(!user.verify_user_password(b""));
}

#[test]
fn stored_credentials_are_base64_of_64_bytes() {
    let user = User::try_from(AuthUser::new("alice", "pw1")).unwrap();
    let engine = base64::engine::general_purpose::STANDARD;
    assert_eq!(engine.decode(&user.salt).unwrap().len(), 64);
    assert_eq!(engine.decode(&user.password).unwrap().len(), 64);
}

#[test]
fn distinct_users_get_distinct_salts() {
    let a = User::try_from(AuthUser::new("alice", "pw")).unwrap();
    let b = User::try_from(AuthUser::new("bob", "pw")).unwrap();
    assert_ne!(a.salt, b.salt);
    assert_ne!(a.id, b.id);
}

#[test]
fn malformed_stored_credentials_verify_as_false() {
    let mut user = User::try_from(AuthUser::new("alice", "pw1")).unwrap();
    user.salt = "*not base64*".to_string();
    assert!(!user.verify_user_password(b"pw1"));
}

#[test]
fn same_password_different_salt_gives_different_hash() {
    let a = User::try_from(AuthUser::new("alice", "pw")).unwrap();
    let b = User::try_from(AuthUser::new("bob", "pw")).unwrap();
    assert_ne!(a.password, b.password);
}
