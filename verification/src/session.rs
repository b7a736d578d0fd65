//! The per-connection session: the connect-then-authenticate handshake and
//! the relay loop, as a verified state machine.
//!
//! The handler reads frames in a loop until one carries a `Login` payload;
//! any other payload is silently consumed. A login against a known user is
//! checked against the stored credential pair; an unknown user is registered
//! on the spot. On success the session becomes active: the peer is welcomed
//! with the current user count, registered, and announced to the others.
//! Active frames are persisted, stamped with the authenticated username, and
//! enqueued for fan-out. The first read failure ends the session and removes
//! it from the registry.

use crate::credentials::{credential_matches, credentials_for, User, UserInfo};
use crate::errors::ServerError;
use crate::messages::{
    AuthMessage, AuthPayload, AuthPayloadView, AuthUser, Message, MessagePayload, PayloadView,
};
use crate::store::{spec_get_user, MemoryDb};
use crate::strutil::{spec_dec, usize_to_dec};
use vstd::prelude::*;
use vstd::utf8::encode_utf8;

verus! {

/// What the server decides about one login attempt, given the store's row
/// for that username.
pub enum LoginDecision {
    /// The user exists and the password matches.
    Accept(UserInfo),
    /// The user exists and the password does not match.
    Reject,
    /// The user does not exist; this fresh row is to be inserted.
    Register(User),
}

/// Decides a login attempt from the fetched row alone. Fails only when no
/// salt can be drawn for a registration.
pub fn login_decision(lookup: Option<User>, auth: &AuthUser) -> (r: Result<
    LoginDecision,
    ServerError,
>)
    ensures
        match lookup {
            Some(u) => {
                if credential_matches(u.password@, u.salt@, encode_utf8(auth@.password)) {
                    r matches Ok(LoginDecision::Accept(info)) && info.id == u.id
                        && info.username@ == u.username@
                } else {
                    r matches Ok(LoginDecision::Reject)
                }
            },
            None => match r {
                Ok(d) => d matches LoginDecision::Register(nu) && nu.username@ == auth@.name
                    && credentials_for(nu.password@, nu.salt@, encode_utf8(auth@.password)),
                Err(e) => e == ServerError::CreateUser,
            },
        },
{
    match lookup {
        Some(user) => {
            if user.verify_user_password(auth.password.as_str().as_bytes()) {
                Ok(LoginDecision::Accept(user.to_user_info()))
            } else {
                Ok(LoginDecision::Reject)
            }
        },
        None => {
            let auth_copy = AuthUser::new(auth.name.as_str(), auth.password.as_str());
            let user = User::try_from(auth_copy)?;
            Ok(LoginDecision::Register(user))
        },
    }
}

/// Verifies a known user's password or registers an unknown one. `Ok(None)`
/// means the password was wrong; `Ok(Some(info))` carries the authenticated
/// identity; `Err` means the registration could not be performed.
pub fn verify_or_create_user(db: &mut MemoryDb, auth: &AuthUser) -> (r: Result<
    Option<UserInfo>,
    ServerError,
>)
    requires
        old(db).wf(),
    ensures
        final(db).wf(),
        final(db).messages() == old(db).messages(),
        match spec_get_user(old(db).users(), auth@.name) {
            Some(u) => final(db).users() == old(db).users() && (
            if credential_matches(u.password@, u.salt@, encode_utf8(auth@.password)) {
                r matches Ok(Some(info)) && info.id == u.id && info.username@ == u.username@
            } else {
                r matches Ok(None)
            }),
            None => match r {
                Ok(o) => o matches Some(info) && exists|nu: User|
                    {
                        &&& final(db).users() == old(db).users().push(nu)
                        &&& #[trigger] nu.username@ == auth@.name
                        &&& credentials_for(nu.password@, nu.salt@, encode_utf8(auth@.password))
                        &&& info.id == nu.id
                        &&& info.username@ == nu.username@
                    },
                Err(e) => (e == ServerError::CreateUser || e == ServerError::StoreUser)
                    && final(db).users() == old(db).users(),
            },
        },
{
    let lookup = db.get_user(auth.name.as_str());
    let decision = match login_decision(lookup, auth) {
        Ok(d) => d,
        Err(e) => {
            return Err(e);
        },
    };
    match decision {
        LoginDecision::Accept(info) => Ok(Some(info)),
        LoginDecision::Reject => Ok(None),
        LoginDecision::Register(user) => {
            let info = user.to_user_info();
            match db.insert_user(&user) {
                Ok(()) => {
                    proof {
                        assert(final(db).users() == old(db).users().push(user));
                    }
                    Ok(Some(info))
                },
                Err(e) => Err(e),
            }
        },
    }
}

/// The welcome frame: a server announcement of the current user count.
pub fn active_users_message(n: usize) -> (r: Message)
    ensures
        r@.sender is None,
        r@.data == PayloadView::ServerInfo("Active users: "@ + spec_dec(n as int)),
{
    let count = usize_to_dec(n);
    let mut text = "Active users: ".to_owned();
    text.append(count.as_str());
    Message::new_server_msg(text.as_str())
}

/// The announcement broadcast when a user joins.
pub fn new_user_message(username: &str) -> (r: Message)
    ensures
        r@.sender is None,
        r@.data == PayloadView::ServerInfo("New user connected: "@ + username@),
{
    let mut text = "New user connected: ".to_owned();
    text.append(username);
    Message::new_server_msg(text.as_str())
}

/// Where a session stands in its lifecycle.
#[derive(Clone, Copy, PartialEq, Eq, Structural, Debug)]
pub enum SessionPhase {
    /// Connected; no successful login yet.
    Authenticating,
    /// Authenticated and registered; relaying frames.
    Active,
    /// Terminated; deregistered if it ever registered.
    Done,
}

/// What the caller must do after one session step, in order.
pub enum SessionAction {
    /// Write this frame to this session's own peer.
    SendToPeer(Message),
    /// Insert this session's write half into the registry, bumping the
    /// connection gauge with it.
    RegisterSelf,
    /// Put this frame on the broadcast channel, tagged with this session's
    /// address so the broadcaster skips its sender.
    Enqueue(Message),
    /// Remove this session from the registry, dropping the gauge with it.
    Deregister,
}

/// One per-connection session.
pub struct Session {
    /// The peer's address: the session's identity in the registry.
    pub peer: u64,
    /// Where the session stands.
    pub phase: SessionPhase,
    /// The authenticated user, from the moment the session becomes active.
    pub user: Option<UserInfo>,
    /// Whether the session's write half stands in the registry, assuming the
    /// caller performs every returned action.
    pub registered: Ghost<bool>,
}

impl Session {
    /// The session invariant: a session stands in the registry exactly while
    /// it is active, and an active session knows its user.
    pub open spec fn wf(&self) -> bool {
        &&& (self.phase is Active <==> self.registered@)
        &&& (self.phase is Active ==> self.user is Some)
    }

    /// A fresh, unauthenticated session for the connection at `peer`.
    pub fn connect(peer: u64) -> (r: Self)
        ensures
            r.wf(),
            r.peer == peer,
            r.phase is Authenticating,
            r.user is None,
    {
        Session { peer, phase: SessionPhase::Authenticating, user: None, registered: Ghost(false) }
    }

    /// Handles one received frame. `peers` is the registry size the caller
    /// snapshot under the lock, for the welcome count.
    ///
    /// While authenticating, a non-login frame is consumed silently; a login
    /// frame is verified or registered against the store, a failure is
    /// answered with an error response and leaves the session
    /// authenticating, and a success answers with the matching response,
    /// welcomes the peer with the user count, registers the session, and
    /// announces the new user. While active, the frame is persisted, stamped
    /// with the authenticated username, and enqueued for fan-out.
    pub fn on_frame(&mut self, db: &mut MemoryDb, msg: Message, peers: usize) -> (actions: Vec<
        SessionAction,
    >)
        requires
            old(self).wf(),
            !(old(self).phase is Done),
            old(db).wf(),
        ensures
            final(self).wf(),
            final(db).wf(),
            final(self).peer == old(self).peer,
            old(self).phase is Authenticating && !(msg@.data is Login) ==> {
                &&& actions@.len() == 0
                &&& *final(self) == *old(self)
                &&& *final(db) == *old(db)
            },
            old(self).phase is Authenticating && msg@.data is Login ==> {
                let auth = msg@.data->Login_0;
                &&& final(db).messages() == old(db).messages()
                &&& (final(self).phase is Active || final(self).phase is Authenticating)
                &&& (final(self).phase is Active ==> {
                    &&& actions@.len() == 4
                    &&& accepted_response(actions@[0], spec_get_user(old(db).users(), auth.name))
                    &&& (actions@[1] matches SessionAction::SendToPeer(w) && w@.sender is None
                        && w@.data == PayloadView::ServerInfo(
                        "Active users: "@ + spec_dec(peers as int),
                    ))
                    &&& actions@[2] is RegisterSelf
                    &&& (actions@[3] matches SessionAction::Enqueue(a) && a@.sender is None
                        && a@.data == PayloadView::ServerInfo(
                        "New user connected: "@ + final(self).user->Some_0.username@,
                    ))
                    &&& final(self).user is Some
                    &&& authenticated_user(
                        final(self).user->Some_0,
                        old(db).users(),
                        final(db).users(),
                        auth,
                    )
                })
                &&& (final(self).phase is Authenticating ==> {
                    &&& *final(self) == *old(self)
                    &&& final(db).users() == old(db).users()
                    &&& actions@.len() == 1
                    &&& (actions@[0] matches SessionAction::SendToPeer(m) && m@.sender is None
                        && m@.data == PayloadView::LoginResponse(
                        AuthPayloadView {
                            is_ok: false,
                            message: None,
                            err: Some(crate::messages::AuthError::IncorrectPassword),
                        },
                    ))
                    &&& (spec_get_user(old(db).users(), auth.name) matches Some(u) ==> !credential_matches(
                        u.password@,
                        u.salt@,
                        encode_utf8(auth.password),
                    ))
                })
            },
            old(self).phase is Active ==> {
                &&& *final(self) == *old(self)
                &&& final(db).users() == old(db).users()
                &&& final(db).messages().len() == old(db).messages().len() + 1
                &&& final(db).messages() == old(db).messages().push(final(db).messages().last())
                &&& final(db).messages().last().user_id == old(self).user->Some_0.id
                &&& final(db).messages().last().text@ == crate::messages::rendered_text(msg@.data)
                &&& actions@.len() == 1
                &&& (actions@[0] matches SessionAction::Enqueue(m) && m@.sender == Some(
                    old(self).user->Some_0.username@,
                ) && m@.data == msg@.data && m@.timestamp == msg@.timestamp)
            },
    {
        match self.phase {
            SessionPhase::Authenticating => {
                let auth = match msg.data {
                    MessagePayload::Login(a) => a,
                    _ => {
                        return Vec::new();
                    },
                };
                let lookup = db.get_user(auth.name.as_str());
                let was_known = match &lookup {
                    Some(_) => true,
                    None => false,
                };
                let accepted: Option<UserInfo> = match login_decision(lookup, &auth) {
                    Ok(LoginDecision::Accept(info)) => Some(info),
                    Ok(LoginDecision::Reject) => None,
                    Ok(LoginDecision::Register(user)) => {
                        let info = user.to_user_info();
                        match db.insert_user(&user) {
                            Ok(()) => Some(info),
                            Err(_) => None,
                        }
                    },
                    Err(_) => None,
                };
                let mut actions: Vec<SessionAction> = Vec::new();
                match accepted {
                    Some(info) => {
                        let response = if was_known {
                            Message::new(MessagePayload::LoginResponse(AuthPayload::new_login()))
                        } else {
                            Message::new(
                                MessagePayload::LoginResponse(AuthPayload::new_register()),
                            )
                        };
                        actions.push(SessionAction::SendToPeer(response));
                        actions.push(SessionAction::SendToPeer(active_users_message(peers)));
                        actions.push(SessionAction::RegisterSelf);
                        actions.push(
                            SessionAction::Enqueue(new_user_message(info.username.as_str())),
                        );
                        self.phase = SessionPhase::Active;
                        self.user = Some(info);
                        proof {
                            self.registered@ = true;
                        }
                        actions
                    },
                    None => {
                        let response = Message::new(
                            MessagePayload::LoginResponse(AuthPayload::new_error()),
                        );
                        actions.push(SessionAction::SendToPeer(response));
                        actions
                    },
                }
            },
            SessionPhase::Active => {
                match &self.user {
                    Some(user) => {
                        let mut message = msg;
                        let _ = db.insert_message(&message, user.id);
                        message.set_from_user(user.username.as_str());
                        let mut actions: Vec<SessionAction> = Vec::new();
                        actions.push(SessionAction::Enqueue(message));
                        actions
                    },
                    None => {
                        proof {
                            assert(false);
                        }
                        Vec::new()
                    },
                }
            },
            SessionPhase::Done => {
                proof {
                    assert(false);
                }
                Vec::new()
            },
        }
    }

    /// Handles the end of the connection: a clean close or a read error.
    /// A session that never became active just ends; an active one is
    /// removed from the registry and broadcasts nothing.
    pub fn on_closed(&mut self) -> (actions: Vec<SessionAction>)
        requires
            old(self).wf(),
        ensures
            final(self).wf(),
            final(self).phase is Done,
            final(self).peer == old(self).peer,
            old(self).phase is Active ==> actions@.len() == 1 && actions@[0] is Deregister,
            !(old(self).phase is Active) ==> actions@.len() == 0,
    {
        let mut actions: Vec<SessionAction> = Vec::new();
        match self.phase {
            SessionPhase::Active => {
                actions.push(SessionAction::Deregister);
            },
            _ => {},
        }
        self.phase = SessionPhase::Done;
        proof {
            self.registered@ = false;
        }
        actions
    }
}

/// Whether a successful login was answered correctly: a registration is
/// acknowledged with `UserRegistered`, a returning user with
/// `LoginSuccessful`.
pub open spec fn accepted_response(action: SessionAction, lookup: Option<User>) -> bool {
    action matches SessionAction::SendToPeer(m) && m@.sender is None && m@.data
        == PayloadView::LoginResponse(
        AuthPayloadView {
            is_ok: true,
            message: Some(
                if lookup is None {
                    AuthMessage::UserRegistered
                } else {
                    AuthMessage::LoginSuccessful
                },
            ),
            err: None,
        },
    )
}

/// Whether `info` identifies the user this login authenticated as: the
/// stored row for a returning user, or the freshly inserted row for a
/// registration.
pub open spec fn authenticated_user(
    info: UserInfo,
    users_before: Seq<User>,
    users_after: Seq<User>,
    auth: crate::messages::AuthUserView,
) -> bool {
    match spec_get_user(users_before, auth.name) {
        Some(u) => users_after == users_before && info.id == u.id && info.username@ == u.username@
            && credential_matches(u.password@, u.salt@, encode_utf8(auth.password)),
        None => exists|nu: User|
            {
                &&& users_after == users_before.push(nu)
                &&& #[trigger] nu.username@ == auth.name
                &&& credentials_for(nu.password@, nu.salt@, encode_utf8(auth.password))
                &&& info.id == nu.id
                &&& info.username@ == nu.username@
            },
    }
}

} // verus!
