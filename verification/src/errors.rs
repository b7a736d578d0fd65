//! The library's error types. They mirror the failure taxonomy of the chat
//! relay: codec failures, per-session I/O failures, store failures, and
//! client-side failures. I/O details stay with the caller that performed the
//! I/O; the library's variants are plain values.

use vstd::prelude::*;

verus! {

/// Failures of the wire codec and of frame transport.
#[derive(Clone, Copy, PartialEq, Eq, Structural, Debug)]
pub enum MessageError {
    /// A value could not be serialized.
    SerializeError,
    /// A byte buffer did not hold a valid encoded message.
    DeserializeError,
    /// The peer's stream rejected a write.
    SendError,
    /// The peer's stream failed mid-frame.
    RecieveError,
}

/// Failures on the server side.
#[derive(Clone, Copy, PartialEq, Eq, Structural, Debug)]
pub enum ServerError {
    /// The listener could not bind to its address.
    Bind,
    /// A frame could not be written to a peer.
    SendMessage,
    /// The broadcast channel rejected a tuple.
    ChannelSend,
    /// The message store rejected an insert.
    StoreMessage,
    /// The user store rejected an insert.
    StoreUser,
    /// The user store failed on a fetch.
    GetUser,
    /// The message store failed on a read.
    GetMessages,
    /// The user store failed on a delete.
    DeleteUser,
    /// A stored credential was not valid base64.
    PasswordDecode,
    /// A fresh salt could not be drawn.
    CreateUser,
    /// The admin surface could not start.
    StartApi,
    /// The connection ended before or during authentication.
    ClosedConnection,
}

/// Failures on the client side.
#[derive(Clone, Copy, PartialEq, Eq, Structural, Debug)]
pub enum ClientError {
    /// The output sink rejected a write.
    Write,
    /// A payload could not be encrypted.
    EncryptMessage,
    /// A payload could not be decrypted.
    DecryptMessage,
    /// The output directory could not be created.
    CreateDir,
    /// A file could not be created in the output directory.
    CreateFile,
    /// A file in the output directory could not be written.
    WriteToFile,
    /// A file could not be read.
    ReadFromFile,
    /// The named file does not exist.
    FileNotExists,
    /// An image could not be converted to PNG.
    ConvertImagePng,
    /// An image could not be opened.
    OpenImage,
    /// A command cannot be turned into a message.
    InvalidCommand,
    /// The server rejected the login.
    LoginFailed,
}

} // verus!
