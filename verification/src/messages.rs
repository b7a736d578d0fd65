//! The chat message model: the `Message` envelope, its payload variants, and
//! the authentication payloads carried during the login handshake.

use crate::clock::now_timestamp;
use crate::strutil::push_char;
use vstd::prelude::*;

verus! {

/// What a login attempt carries: a username and a plaintext password.
pub struct AuthUser {
    pub name: String,
    pub password: String,
}

/// Ghost mirror of `AuthUser`.
pub struct AuthUserView {
    pub name: Seq<char>,
    pub password: Seq<char>,
}

impl View for AuthUser {
    type V = AuthUserView;

    open spec fn view(&self) -> AuthUserView {
        AuthUserView { name: self.name@, password: self.password@ }
    }
}

impl AuthUser {
    /// Bundles a username and a password for a login request.
    pub fn new(name: &str, password: &str) -> (r: Self)
        ensures
            r@.name == name@,
            r@.password == password@,
    {
        AuthUser { name: name.to_owned(), password: password.to_owned() }
    }
}

/// The success messages a login response can carry.
#[derive(Clone, Copy, PartialEq, Eq, Structural, Debug)]
pub enum AuthMessage {
    LoginSuccessful,
    UserRegistered,
}

/// The error a login response can carry.
#[derive(Clone, Copy, PartialEq, Eq, Structural, Debug)]
pub enum AuthError {
    IncorrectPassword,
}

/// The server's answer to a login attempt.
pub struct AuthPayload {
    is_ok: bool,
    message: Option<AuthMessage>,
    err: Option<AuthError>,
}

/// Ghost mirror of `AuthPayload`.
pub struct AuthPayloadView {
    pub is_ok: bool,
    pub message: Option<AuthMessage>,
    pub err: Option<AuthError>,
}

impl View for AuthPayload {
    type V = AuthPayloadView;

    closed spec fn view(&self) -> AuthPayloadView {
        AuthPayloadView { is_ok: self.is_ok, message: self.message, err: self.err }
    }
}

impl AuthPayload {
    /// The response sent when an existing user presented the right password.
    pub fn new_login() -> (r: Self)
        ensures
            r@ == (AuthPayloadView {
                is_ok: true,
                message: Some(AuthMessage::LoginSuccessful),
                err: None,
            }),
    {
        AuthPayload { is_ok: true, message: Some(AuthMessage::LoginSuccessful), err: None }
    }

    /// The response sent when a first-time user was registered.
    pub fn new_register() -> (r: Self)
        ensures
            r@ == (AuthPayloadView {
                is_ok: true,
                message: Some(AuthMessage::UserRegistered),
                err: None,
            }),
    {
        AuthPayload { is_ok: true, message: Some(AuthMessage::UserRegistered), err: None }
    }

    /// The response sent when the password did not match.
    pub fn new_error() -> (r: Self)
        ensures
            r@ == (AuthPayloadView {
                is_ok: false,
                message: None,
                err: Some(AuthError::IncorrectPassword),
            }),
    {
        AuthPayload { is_ok: false, message: None, err: Some(AuthError::IncorrectPassword) }
    }

    /// Whether the login attempt succeeded.
    pub fn is_success(&self) -> (r: bool)
        ensures
            r == self@.is_ok,
    {
        self.is_ok
    }

    /// Builds a response value from raw parts; the wire codec decodes into
    /// this.
    pub fn from_parts(is_ok: bool, message: Option<AuthMessage>, err: Option<AuthError>) -> (r:
        Self)
        ensures
            r@ == (AuthPayloadView { is_ok, message, err }),
    {
        AuthPayload { is_ok, message, err }
    }

    /// The three fields of the response, for the wire codec.
    pub fn parts(&self) -> (r: (bool, Option<AuthMessage>, Option<AuthError>))
        ensures
            r.0 == self@.is_ok,
            r.1 == self@.message,
            r.2 == self@.err,
    {
        (self.is_ok, self.message, self.err)
    }

    /// The user-facing rendering of the response.
    pub fn to_display_string(&self) -> (r: String)
        ensures
            r@ == self@.display_seq(),
    {
        if self.is_ok {
            match self.message {
                Some(AuthMessage::UserRegistered) => {
                    let mut s = "You were successfully registered.".to_owned();
                    push_char(&mut s, '\n');
                    s
                },
                _ => {
                    let mut s = "Login was successful.".to_owned();
                    push_char(&mut s, '\n');
                    s
                },
            }
        } else {
            let mut s = "Login failed, incorrect password.".to_owned();
            push_char(&mut s, '\n');
            s
        }
    }
}

impl AuthPayloadView {
    /// The user-facing rendering of a login response.
    pub open spec fn display_seq(self) -> Seq<char> {
        if self.is_ok {
            if self.message == Some(AuthMessage::UserRegistered) {
                "You were successfully registered."@.push('\n')
            } else {
                "Login was successful."@.push('\n')
            }
        } else {
            "Login failed, incorrect password."@.push('\n')
        }
    }
}

/// The payload of a chat message.
pub enum MessagePayload {
    Text(String),
    Image(Vec<u8>),
    File(String, Vec<u8>),
    ServerInfo(String),
    Login(AuthUser),
    LoginResponse(AuthPayload),
}

/// Ghost mirror of `MessagePayload`.
pub enum PayloadView {
    Text(Seq<char>),
    Image(Seq<u8>),
    File(Seq<char>, Seq<u8>),
    ServerInfo(Seq<char>),
    Login(AuthUserView),
    LoginResponse(AuthPayloadView),
}

impl View for MessagePayload {
    type V = PayloadView;

    open spec fn view(&self) -> PayloadView {
        match self {
            MessagePayload::Text(s) => PayloadView::Text(s@),
            MessagePayload::Image(b) => PayloadView::Image(b@),
            MessagePayload::File(n, b) => PayloadView::File(n@, b@),
            MessagePayload::ServerInfo(s) => PayloadView::ServerInfo(s@),
            MessagePayload::Login(u) => PayloadView::Login(u@),
            MessagePayload::LoginResponse(p) => PayloadView::LoginResponse(p@),
        }
    }
}

/// The name a message is displayed under: its sender, or "anonymous" when
/// the sender is absent.
pub open spec fn display_sender(sender: Option<Seq<char>>) -> Seq<char> {
    match sender {
        Some(s) => s,
        None => "anonymous"@,
    }
}

/// The user-facing rendering of a message, one line per message.
pub open spec fn message_display(m: MessageView) -> Seq<char> {
    match m.data {
        PayloadView::Text(text) => display_sender(m.sender) + ": "@ + text + "\n"@,
        PayloadView::Image(_) => display_sender(m.sender) + " sent an image\n"@,
        PayloadView::File(name, _) => display_sender(m.sender) + " sent a file "@ + name + "\n"@,
        PayloadView::ServerInfo(text) => "--      "@ + text + "      --\n"@,
        PayloadView::Login(_) => "Login payload\n"@,
        PayloadView::LoginResponse(a) => a.display_seq(),
    }
}

/// The rendered text stored for a payload: chat text as itself, blobs as a
/// short marker, everything else as the empty string.
pub open spec fn rendered_text(p: PayloadView) -> Seq<char> {
    match p {
        PayloadView::Text(s) => s,
        PayloadView::Image(_) => "img sent"@,
        PayloadView::File(name, _) => "file sent: "@ + name,
        PayloadView::ServerInfo(_) => Seq::empty(),
        PayloadView::Login(_) => Seq::empty(),
        PayloadView::LoginResponse(_) => Seq::empty(),
    }
}

impl MessagePayload {
    /// The compact string form of a payload that the message store persists.
    pub fn serialize_to_text(data: &MessagePayload) -> (r: String)
        ensures
            r@ == rendered_text(data@),
    {
        match data {
            MessagePayload::Text(text) => text.as_str().to_owned(),
            MessagePayload::Image(_) => "img sent".to_owned(),
            MessagePayload::File(name, _) => {
                let mut s = "file sent: ".to_owned();
                s.append(name.as_str());
                s
            },
            MessagePayload::ServerInfo(_) => String::new(),
            MessagePayload::Login(_) => String::new(),
            MessagePayload::LoginResponse(_) => String::new(),
        }
    }
}

/// A chat message as it travels on the wire: an optional sender, a creation
/// timestamp, and the payload.
pub struct Message {
    pub sender: Option<String>,
    pub timestamp: i64,
    pub data: MessagePayload,
}

/// Ghost mirror of `Message`.
#[verifier::ext_equal]
pub struct MessageView {
    pub sender: Option<Seq<char>>,
    pub timestamp: int,
    pub data: PayloadView,
}

impl View for Message {
    type V = MessageView;

    open spec fn view(&self) -> MessageView {
        MessageView {
            sender: match &self.sender {
                Some(s) => Some(s@),
                None => None,
            },
            timestamp: self.timestamp as int,
            data: self.data@,
        }
    }
}

impl Message {
    /// A fresh message around `data`: no sender, stamped with the current
    /// time.
    pub fn new(data: MessagePayload) -> (r: Self)
        ensures
            r@.sender is None,
            r@.data == data@,
    {
        Message { sender: None, timestamp: now_timestamp(), data }
    }

    /// A server announcement around `text`; the sender is absent.
    pub fn new_server_msg(text: &str) -> (r: Self)
        ensures
            r@.sender is None,
            r@.data == PayloadView::ServerInfo(text@),
    {
        Message {
            sender: None,
            timestamp: now_timestamp(),
            data: MessagePayload::ServerInfo(text.to_owned()),
        }
    }

    /// The user-facing rendering of the message, as the client prints it.
    pub fn to_display_string(&self) -> (r: String)
        ensures
            r@ == message_display(self@),
    {
        let sender: &str = match &self.sender {
            Some(s) => s.as_str(),
            None => "anonymous",
        };
        match &self.data {
            MessagePayload::Text(text) => {
                let mut out = sender.to_owned();
                out.append(": ");
                out.append(text.as_str());
                push_char(&mut out, '\n');
                proof {
                    reveal_strlit("\n");
                    assert(out@ =~= message_display(self@));
                }
                out
            },
            MessagePayload::Image(_) => {
                let mut out = sender.to_owned();
                out.append(" sent an image\n");
                proof {
                    assert(out@ =~= message_display(self@));
                }
                out
            },
            MessagePayload::File(filename, _) => {
                let mut out = sender.to_owned();
                out.append(" sent a file ");
                out.append(filename.as_str());
                push_char(&mut out, '\n');
                proof {
                    reveal_strlit("\n");
                    assert(out@ =~= message_display(self@));
                }
                out
            },
            MessagePayload::ServerInfo(text) => {
                let mut out = "--      ".to_owned();
                out.append(text.as_str());
                out.append("      --\n");
                proof {
                    assert(out@ =~= message_display(self@));
                }
                out
            },
            MessagePayload::Login(_) => {
                let out = "Login payload\n".to_owned();
                out
            },
            MessagePayload::LoginResponse(data) => {
                let out = data.to_display_string();
                out
            },
        }
    }

    /// Stamps the authenticated sender on the message, overwriting whatever
    /// the client supplied.
    pub fn set_from_user(&mut self, sender: &str)
        ensures
            final(self)@.sender == Some(sender@),
            final(self)@.timestamp == old(self)@.timestamp,
            final(self)@.data == old(self)@.data,
    {
        self.sender = Some(sender.to_owned());
    }
}

} // verus!
