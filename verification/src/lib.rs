//! A real-time, authenticated multi-user chat relay library.
//!
//! The library holds the logic of a chat server and its clients: the
//! length-prefixed binary wire codec, the user and message stores, the
//! credential engine (salted password hashing), the per-connection session
//! state machine, the fan-out broadcaster with its session registry and
//! metrics, the administrative read surface, and the text-formatting
//! operations of the accompanying command-line tools.
//!
//! All I/O (sockets, database, files) lives outside the library; the library
//! computes decisions, frames, and store contents from plain values.

pub mod admin;
pub mod clock;
pub mod codec;
pub mod command;
pub mod credentials;
pub mod e2e;
pub mod errors;
pub mod messages;
pub mod ops;
pub mod registry;
pub mod session;
pub mod server;
pub mod store;
pub mod strutil;

pub use messages::{AuthError, AuthMessage, AuthPayload, AuthUser, Message, MessagePayload};
