use chat_relay::messages::{AuthUser, Message, MessagePayload};
use chat_relay::server::ChatServer;
use chat_relay::session::{Session, SessionAction, SessionPhase};
use chat_relay::store::MemoryDb;

fn login(name: &str, password: &str) -> Message {
    Message::new(MessagePayload::Login(AuthUser::new(name, password)))
}

fn response_payload(action: &SessionAction) -> (bool, Option<&'static str>) {
    match action {
        SessionAction::SendToPeer(m) => match &m.data {
            MessagePayload::LoginResponse(p) => {
                let (is_ok, msg, _) = p.parts();
                let name = msg.map(|m| match m {
                    chat_relay::messages::AuthMessage::LoginSuccessful => "login",
                    chat_relay::messages::AuthMessage::UserRegistered => "registered",
                });
                (is_ok, name)
            }
            _ => panic!("expected a login response"),
        },
        _ => panic!("expected a frame to the peer"),
    }
}

#[test]
fn first_time_registration() {
    // A first login auto-registers the user and acknowledges it as such.
    let mut db = MemoryDb::new();
    let mut session = Session::connect(1);
    let actions = session.on_frame(&mut db, login("alice", "pw1"), 0);
    assert_eq!(session.phase, SessionPhase::Active);
    assert_eq!(actions.len(), 4);
    assert_eq!(response_payload(&actions[0]), (true, Some("registered")));
    match &actions[1] {
        SessionAction::SendToPeer(m) => match &m.data {
            MessagePayload::ServerInfo(s) => assert_eq!(s, "Active users: 0"),
            _ => panic!("expected the welcome announcement"),
        },
        _ => panic!("expected the welcome frame"),
    }
    assert!(matches!(actions[2], SessionAction::RegisterSelf));
    match &actions[3] {
        SessionAction::Enqueue(m) => match &m.data {
            MessagePayload::ServerInfo(s) => assert_eq!(s, "New user connected: alice"),
            _ => panic!("expected the join announcement"),
        },
        _ => panic!("expected the join broadcast"),
    }
    let users = db.get_users();
    assert_eq!(users.len(), 1);
    assert_eq!(users[0].username, "alice");
}

#[test]
fn second_login_succeeds_without_new_row() {
    let mut db = MemoryDb::new();
    let mut first = Session::connect(1);
    first.on_frame(&mut db, login("alice", "pw1"), 0);
    let mut second = Session::connect(2);
    let actions = second.on_frame(&mut db, login("alice", "pw1"), 1);
    assert_eq!(second.phase, SessionPhase::Active);
    assert_eq!(response_payload(&actions[0]), (true, Some("login")));
    assert_eq!(db.get_users().len(), 1);
}

#[test]
fn wrong_password_loops_without_dropping_the_session() {
    let mut db = MemoryDb::new();
    let mut first = Session::connect(1);
    first.on_frame(&mut db, login("alice", "pw1"), 0);

    let mut third = Session::connect(3);
    let actions = third.on_frame(&mut db, login("alice", "wrong"), 1);
    assert_eq!(third.phase, SessionPhase::Authenticating);
    assert_eq!(actions.len(), 1);
    assert_eq!(response_payload(&actions[0]), (false, None));

    let retry = third.on_frame(&mut db, login("alice", "pw1"), 1);
    assert_eq!(third.phase, SessionPhase::Active);
    assert_eq!(response_payload(&retry[0]), (true, Some("login")));
}

#[test]
fn non_login_frames_are_ignored_while_authenticating() {
    let mut db = MemoryDb::new();
    let mut session = Session::connect(1);
    let actions = session.on_frame(
        &mut db,
        Message::new(MessagePayload::Text("hi".to_string())),
        0,
    );
    assert!(actions.is_empty());
    assert_eq!(session.phase, SessionPhase::Authenticating);
}

#[test]
fn relayed_frames_carry_the_authenticated_sender() {
    let mut db = MemoryDb::new();
    let mut session = Session::connect(1);
    session.on_frame(&mut db, login("alice", "pw1"), 0);
    let mut spoofed = Message::new(MessagePayload::Text("hi".to_string()));
    spoofed.set_from_user("mallory");
    let actions = session.on_frame(&mut db, spoofed, 0);
    assert_eq!(actions.len(), 1);
    match &actions[0] {
        SessionAction::Enqueue(m) => {
            assert_eq!(m.sender.as_deref(), Some("alice"));
            assert!(matches!(&m.data, MessagePayload::Text(t) if t == "hi"));
        }
        _ => panic!("expected the frame to be enqueued"),
    }
}

#[test]
fn close_after_auth_deregisters_and_broadcasts_nothing() {
    let mut db = MemoryDb::new();
    let mut session = Session::connect(1);
    session.on_frame(&mut db, login("alice", "pw1"), 0);
    let actions = session.on_closed();
    assert_eq!(actions.len(), 1);
    assert!(matches!(actions[0], SessionAction::Deregister));
    assert_eq!(session.phase, SessionPhase::Done);
    let messages_before = db.get_messages("").len();
    assert_eq!(messages_before, 0);
}

#[test]
fn close_before_auth_does_nothing() {
    let mut session = Session::connect(1);
    let actions = session.on_closed();
    assert!(actions.is_empty());
    assert_eq!(session.phase, SessionPhase::Done);
}

#[test]
fn fan_out_excludes_the_sender() {
    let mut server: ChatServer<u32> = ChatServer::new();
    server.register_session(1, 10);
    server.register_session(2, 20);
    server.register_session(3, 30);
    let m = Message::new(MessagePayload::Text("hi".to_string()));
    let targets = server.process_tuple(1, &m);
    assert_eq!(targets, vec![2, 3]);
}

#[test]
fn counters_track_tuples_and_sessions() {
    let mut server: ChatServer<u32> = ChatServer::new();
    assert_eq!(server.messages_count(), 0);
    assert_eq!(server.connections_gauge(), 0);
    server.register_session(1, 10);
    server.register_session(2, 20);
    assert_eq!(server.connections_gauge(), 2);
    assert_eq!(server.active_users(), 2);
    let m = Message::new(MessagePayload::Text("a".to_string()));
    server.process_tuple(1, &m);
    server.process_tuple(2, &m);
    assert_eq!(server.messages_count(), 2);
    server.end_session(1);
    assert_eq!(server.connections_gauge(), 1);
    assert_eq!(server.active_users(), 1);
    assert!(server.end_session(1).is_none());
    assert_eq!(server.connections_gauge(), 1);
}

#[test]
fn slow_peer_sees_messages_in_submission_order() {
    // Two frames from one sender pass through the relay in order: the
    // channel is first-in, first-out and the broadcaster handles one tuple
    // at a time, so a paused reader drains them in submission order.
    let mut db = MemoryDb::new();
    let mut a = Session::connect(1);
    a.on_frame(&mut db, login("alice", "pw1"), 0);
    let mut queue: Vec<(u64, Message)> = Vec::new();
    for text in ["m1", "m2"] {
        let actions = a.on_frame(
            &mut db,
            Message::new(MessagePayload::Text(text.to_string())),
            1,
        );
        for action in actions {
            if let SessionAction::Enqueue(m) = action {
                queue.push((1, m));
            }
        }
    }
    let mut server: ChatServer<u32> = ChatServer::new();
    server.register_session(1, 10);
    server.register_session(2, 20);
    let mut delivered_to_b: Vec<String> = Vec::new();
    for (sender, m) in queue {
        let targets = server.process_tuple(sender, &m);
        if targets.contains(&2) {
            if let MessagePayload::Text(t) = &m.data {
                delivered_to_b.push(t.clone());
            }
        }
    }
    assert_eq!(delivered_to_b, vec!["m1".to_string(), "m2".to_string()]);
}

#[test]
fn admin_list_reflects_persistence_not_liveness() {
    // A disconnected user stays listed until deleted.
    let mut db = MemoryDb::new();
    let mut session = Session::connect(1);
    session.on_frame(&mut db, login("alice", "pw1"), 0);
    session.on_closed();
    let listed = chat_relay::admin::get_users(&db);
    assert_eq!(listed.len(), 1);
    let id = listed[0].id;
    assert_eq!(chat_relay::admin::delete_user(&mut db, id), 204);
    assert!(chat_relay::admin::get_users(&db).is_empty());
}

#[test]
fn welcome_counts_the_peers_present_before_joining() {
    let msg = chat_relay::session::active_users_message(7);
    match msg.data {
        MessagePayload::ServerInfo(s) => assert_eq!(s, "Active users: 7"),
        _ => panic!("expected a server announcement"),
    }
    assert!(msg.sender.is_none());
}
