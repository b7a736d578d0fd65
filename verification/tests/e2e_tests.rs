use chat_relay::command::Command;
use chat_relay::e2e::{decrypt, decrypt_payload, encrypt, encrypt_payload, pad_to_32_bytes};
use chat_relay::messages::MessagePayload;

#[test]
fn test_encrypt_decrypt() {
    let text = b"Hello, world!";

    let key = pad_to_32_bytes(b"my_scrt_key");

    let encrypted = encrypt(&key, text);

    assert!(encrypted.is_ok());

    let (encrypted_message, nonce) = encrypted.unwrap();

    let decrypted = decrypt(&key, &nonce, &encrypted_message);

    assert!(decrypted.is_ok());

    let decrypted_message = decrypted.unwrap();

    assert_eq!(text, decrypted_message.as_slice());
}

#[test]
fn encryption_test_encrypt_decrypt() {
    let text = b"Hello, world!";

    let key = pad_to_32_bytes(b"my_scrt_key");

    let encrypted = encrypt(&key, text);

    assert!(encrypted.is_ok());

    let (encrypted_message, nonce) = encrypted.unwrap();

    let decrypted = decrypt(&key, &nonce, &encrypted_message);

    assert!(decrypted.is_ok());

    let decrypted_message = decrypted.unwrap();

    assert_eq!(text, decrypted_message.as_slice());
}

#[test]
fn pad_pads_and_truncates() {
    let short = pad_to_32_bytes(b"ab");
    assert_eq!(short.len(), 32);
    assert_eq!(&short[..2], b"ab");
    assert!(short[2..].iter().all(|&b| b == 0));

    let long_input = [7u8; 40];
    let long = pad_to_32_bytes(&long_input);
    assert_eq!(long.len(), 32);
    assert!(long.iter().all(|&b| b == 7));
}

#[test]
fn payload_roundtrip_restores_the_text() {
    let key = pad_to_32_bytes(b"k");
    let sent = encrypt_payload(MessagePayload::Text("secret hi".to_string()), &key).unwrap();
    match &sent {
        MessagePayload::Text(e) => assert_ne!(e, "secret hi"),
        _ => panic!("text stays text"),
    }
    let back = decrypt_payload(sent, &key).unwrap();
    assert!(matches!(back, MessagePayload::Text(t) if t == "secret hi"));
}

#[test]
fn non_text_payloads_pass_through() {
    let key = pad_to_32_bytes(b"k");
    let img = encrypt_payload(MessagePayload::Image(vec![1, 2]), &key).unwrap();
    assert!(matches!(img, MessagePayload::Image(v) if v == vec![1, 2]));
}

#[test]
fn wrong_key_fails_to_decrypt() {
    let key = pad_to_32_bytes(b"k1");
    let other = pad_to_32_bytes(b"k2");
    let sent = encrypt_payload(MessagePayload::Text("x".to_string()), &key).unwrap();
    assert!(decrypt_payload(sent, &other).is_err());
}

#[test]
fn garbage_fails_to_decrypt() {
    let key = pad_to_32_bytes(b"k");
    assert!(decrypt_payload(MessagePayload::Text("%%%".to_string()), &key).is_err());
    assert!(decrypt_payload(MessagePayload::Text("YWI=".to_string()), &key).is_err());
}

#[test]
fn command_parsing() {
    assert!(matches!(
        Command::from_str(".file /tmp/a.txt").unwrap(),
        Command::File(p) if p == "/tmp/a.txt"
    ));
    assert!(matches!(
        Command::from_str(".image cat.png").unwrap(),
        Command::Image(p) if p == "cat.png"
    ));
    assert!(matches!(Command::from_str(".quit").unwrap(), Command::Quit));
    assert!(matches!(
        Command::from_str("hello there").unwrap(),
        Command::Text(t) if t == "hello there"
    ));
}
