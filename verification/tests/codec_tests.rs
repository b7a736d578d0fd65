use chat_relay::codec::{decode, decode_body, encode, encode_frame, header_bytes, header_len};
use chat_relay::messages::{
    AuthMessage, AuthPayload, AuthUser, Message, MessagePayload,
};

fn payload_eq(a: &MessagePayload, b: &MessagePayload) -> bool {
    match (a, b) {
        (MessagePayload::Text(x), MessagePayload::Text(y)) => x == y,
        (MessagePayload::Image(x), MessagePayload::Image(y)) => x == y,
        (MessagePayload::File(n1, x), MessagePayload::File(n2, y)) => n1 == n2 && x == y,
        (MessagePayload::ServerInfo(x), MessagePayload::ServerInfo(y)) => x == y,
        (MessagePayload::Login(u), MessagePayload::Login(v)) => {
            u.name == v.name && u.password == v.password
        }
        (MessagePayload::LoginResponse(p), MessagePayload::LoginResponse(q)) => {
            p.parts() == q.parts()
        }
        _ => false,
    }
}

fn assert_roundtrip(message: Message) {
    let encoded = encode(&message);
    let decoded = decode(&encoded).expect("canonical bytes must decode");
    assert_eq!(decoded.sender, message.sender);
    assert_eq!(decoded.timestamp, message.timestamp);
    assert!(payload_eq(&decoded.data, &message.data));
}

#[test]
fn roundtrip_all_payloads() {
    let mut m = Message::new(MessagePayload::Text("hello world".to_string()));
    m.set_from_user("alice");
    assert_roundtrip(m);
    assert_roundtrip(Message::new(MessagePayload::Image(vec![1, 2, 3, 255, 0])));
    assert_roundtrip(Message::new(MessagePayload::File(
        "notes.txt".to_string(),
        vec![9, 8, 7],
    )));
    assert_roundtrip(Message::new(MessagePayload::ServerInfo("up".to_string())));
    assert_roundtrip(Message::new(MessagePayload::Login(AuthUser::new(
        "bob", "secret",
    ))));
    assert_roundtrip(Message::new(MessagePayload::LoginResponse(
        AuthPayload::new_register(),
    )));
    assert_roundtrip(Message::new(MessagePayload::LoginResponse(
        AuthPayload::new_error(),
    )));
}

#[test]
fn encoding_matches_canonical_serializer() {
    // The same values, serialized field by field with the canonical binary
    // serializer the peers use: an optional sender, a timestamp, a variant
    // tag, and the variant's fields.
    let mine = encode(&Message {
        sender: Some("alice".to_string()),
        timestamp: 42,
        data: MessagePayload::Text("hi".to_string()),
    });
    let reference = bincode::serialize(&(
        Some("alice".to_string()),
        42i64,
        0u32,
        "hi".to_string(),
    ))
    .unwrap();
    assert_eq!(mine, reference);

    let mine = encode(&Message {
        sender: None,
        timestamp: -7,
        data: MessagePayload::File("a.bin".to_string(), vec![1, 2, 3]),
    });
    let reference = bincode::serialize(&(
        None::<String>,
        -7i64,
        2u32,
        "a.bin".to_string(),
        vec![1u8, 2, 3],
    ))
    .unwrap();
    assert_eq!(mine, reference);

    let mine = encode(&Message {
        sender: None,
        timestamp: 0,
        data: MessagePayload::LoginResponse(AuthPayload::new_login()),
    });
    let reference = bincode::serialize(&(
        None::<String>,
        0i64,
        5u32,
        true,
        Some(0u32),
        None::<u32>,
    ))
    .unwrap();
    assert_eq!(mine, reference);
}

#[test]
fn decode_accepts_canonical_serializer_output() {
    let bytes = bincode::serialize(&(
        Some("carol".to_string()),
        1700000000i64,
        3u32,
        "maintenance".to_string(),
    ))
    .unwrap();
    let decoded = decode(&bytes).unwrap();
    assert_eq!(decoded.sender.as_deref(), Some("carol"));
    assert_eq!(decoded.timestamp, 1700000000);
    assert!(matches!(decoded.data, MessagePayload::ServerInfo(s) if s == "maintenance"));
}

#[test]
fn empty_body_is_an_error() {
    // A frame whose declared length is zero carries an empty body, and no
    // valid message encodes to an empty body.
    assert!(decode_body(&[]).is_err());
}

#[test]
fn truncated_and_malformed_bodies_are_errors() {
    assert!(decode(&[1u8]).is_err());
    assert!(decode(&[2u8, 0, 0, 0, 0, 0, 0, 0, 0]).is_err());
    let mut good = encode(&Message::new(MessagePayload::Text("x".to_string())));
    good.pop();
    assert!(decode(&good).is_err());
}

#[test]
fn frame_header_is_big_endian_length() {
    let message = Message::new(MessagePayload::Text("abc".to_string()));
    let body = encode(&message);
    let frame = encode_frame(&message).unwrap();
    assert_eq!(frame.len(), body.len() + 4);
    let mut header = [0u8; 4];
    header.copy_from_slice(&frame[..4]);
    assert_eq!(header_len(&header) as usize, body.len());
    assert_eq!(header_bytes(body.len() as u32), header);
    assert_eq!(&frame[4..], &body[..]);
}

#[test]
fn display_renderings() {
    let mut m = Message::new(MessagePayload::Text("hi".to_string()));
    m.set_from_user("alice");
    assert_eq!(m.to_display_string(), "alice: hi\n");
    let m = Message::new(MessagePayload::ServerInfo("Active users: 2".to_string()));
    assert_eq!(m.to_display_string(), "--      Active users: 2      --\n");
    let m = Message::new(MessagePayload::LoginResponse(AuthPayload::new_register()));
    assert_eq!(m.to_display_string(), "You were successfully registered.\n");
    let m = Message::new(MessagePayload::Image(vec![1]));
    assert_eq!(m.to_display_string(), "anonymous sent an image\n");
}

#[test]
fn rendered_text_for_store() {
    assert_eq!(
        MessagePayload::serialize_to_text(&MessagePayload::Text("hello".to_string())),
        "hello"
    );
    assert_eq!(
        MessagePayload::serialize_to_text(&MessagePayload::Image(vec![1, 2])),
        "img sent"
    );
    assert_eq!(
        MessagePayload::serialize_to_text(&MessagePayload::File("a.png".to_string(), vec![])),
        "file sent: a.png"
    );
    assert_eq!(
        MessagePayload::serialize_to_text(&MessagePayload::ServerInfo("x".to_string())),
        ""
    );
}
